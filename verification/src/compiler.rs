use crate::address::{Address, AddressRange};
use crate::instruction::{Instruction, StyleVar};
use crate::listing::lemma_well_formed_can_list;
use crate::pool::{is_ascii_bytes, pool_append, pool_bytes, pool_from_bytes};
use crate::program::{BinaryProgram, Program, ProgramModel};
use vstd::prelude::*;
use vstd::utf8::encode_utf8;

verus! {

/// The kind of a markup tag, as far as the compiler tells tags apart.
#[derive(Debug, Clone, Copy, PartialEq, Eq, Structural)]
pub enum TagKind {
    Bold,
    Italic,
    LineBreak,
    /// Any tag that the compiler has no instruction for.
    Other,
}

/// One element of a flattened markup tree.
#[derive(Debug, Clone, PartialEq, Eq)]
pub enum Element {
    /// A run of plain text.
    Text(String),
    /// A start tag.
    Tag(TagKind),
    /// An end tag.
    EndTag(TagKind),
    /// A line break that is no tag.
    LineBreak,
    /// A place that an earlier pass has emptied.
    IgnoreTag,
}

/// What the compiler hands back.
pub type CompilationOutput = Program;

/// What the compiler's result is written out from.
pub type CompiledBinary = BinaryProgram;

/// The style that a tag switches, if it switches one.
pub open spec fn style_of_tag(tag: TagKind) -> Option<StyleVar> {
    match tag {
        TagKind::Bold => Some(StyleVar::Bold),
        TagKind::Italic => Some(StyleVar::Italic),
        _ => None,
    }
}

/// The test that a byte passes to enter the text pool.
pub open spec fn is_ascii_byte() -> spec_fn(u8) -> bool {
    |b: u8| b < 128
}

/// The bytes that an element adds to the text pool: of a text, the ASCII bytes of
/// its UTF-8 form, in their order; of anything else, none.
pub open spec fn kept_text(element: Element) -> Seq<u8> {
    match element {
        Element::Text(content) => encode_utf8(content@).filter(is_ascii_byte()),
        _ => Seq::empty(),
    }
}

/// The instructions that an element is compiled to when the text pool holds
/// `start` bytes: none or one.
///
/// A text that adds bytes to the pool gives a `Text` over just these bytes; one
/// that adds none gives nothing. A start tag of a style pushes it, an end tag pops
/// it. A line-break start tag and a line break give `Endl`. All else gives nothing.
pub open spec fn emitted(element: Element, start: nat) -> Seq<Instruction> {
    match element {
        Element::Text(_) => if kept_text(element).len() == 0 {
            Seq::empty()
        } else {
            seq![
                Instruction::Text(
                    AddressRange {
                        base: Address(start as u32),
                        range: kept_text(element).len() as u32,
                    },
                ),
            ]
        },
        Element::Tag(TagKind::LineBreak) => seq![Instruction::Endl],
        Element::Tag(kind) => match style_of_tag(kind) {
            Some(style) => seq![Instruction::Push(style)],
            None => Seq::empty(),
        },
        Element::EndTag(kind) => match style_of_tag(kind) {
            Some(style) => seq![Instruction::Pop(style)],
            None => Seq::empty(),
        },
        Element::LineBreak => seq![Instruction::Endl],
        Element::IgnoreTag => Seq::empty(),
    }
}

/// The text pool and the instructions of a run of elements, before the final `Stop`:
/// each element adds its bytes behind the pool and its instructions behind the code.
pub open spec fn compiled_body(elements: Seq<Element>) -> ProgramModel
    decreases elements.len(),
{
    if elements.len() == 0 {
        ProgramModel { text: Seq::empty(), code: Seq::empty() }
    } else {
        let before = compiled_body(elements.drop_last());
        ProgramModel {
            text: before.text + kept_text(elements.last()),
            code: before.code + emitted(elements.last(), before.text.len()),
        }
    }
}

/// The program of a run of elements: the body, and one `Stop` behind it.
pub open spec fn compiled(elements: Seq<Element>) -> ProgramModel {
    ProgramModel {
        text: compiled_body(elements).text,
        code: compiled_body(elements).code.push(Instruction::Stop),
    }
}

/// The text pool of a compiled body is ASCII, and while it has a 32-bit length
/// every span in the body is not empty and lies inside it.
pub proof fn lemma_compiled_body(elements: Seq<Element>)
    ensures
        is_ascii_bytes(compiled_body(elements).text),
        compiled_body(elements).text.len() <= u32::MAX ==> compiled_body(
            elements,
        ).spans_in_pool(),
    decreases elements.len(),
{
    if elements.len() > 0 {
        let before = compiled_body(elements.drop_last());
        let kept = kept_text(elements.last());
        let body = compiled_body(elements);
        lemma_compiled_body(elements.drop_last());
        lemma_kept_text(elements.last());
        if body.text.len() <= u32::MAX {
            assert forall|i: int| 0 <= i < body.code.len() implies (
            #[trigger] body.code[i] matches Instruction::Text(span) ==> span.within(
                body.text.len(),
            )) by {
                if i < before.code.len() {
                    assert(body.code[i] == before.code[i]);
                }
            }
        }
    }
}

/// What an element adds to the pool is ASCII.
pub proof fn lemma_kept_text(element: Element)
    ensures
        is_ascii_bytes(kept_text(element)),
{
    match element {
        Element::Text(content) => {
            let bytes = encode_utf8(content@);
            assert forall|i: int| 0 <= i < kept_text(element).len() implies kept_text(
                element,
            )[i] < 128 by {
                bytes.lemma_filter_pred(is_ascii_byte(), i);
            }
        },
        _ => {},
    }
}

/// The style that a tag switches: bold for a bold tag, italic for an italic tag,
/// none for any other.
pub fn stylevar_from_tag(tag: TagKind) -> (style: Option<StyleVar>)
    ensures
        style == style_of_tag(tag),
{
    match tag {
        TagKind::Bold => Some(StyleVar::Bold),
        TagKind::Italic => Some(StyleVar::Italic),
        _ => None,
    }
}

/// The ASCII bytes of `bytes`, in their order.
fn ascii_bytes_of(bytes: &[u8]) -> (kept: Vec<u8>)
    ensures
        kept@ == bytes@.filter(is_ascii_byte()),
        is_ascii_bytes(kept@),
{
    let mut kept: Vec<u8> = Vec::new();
    let mut i: usize = 0;
    proof {
        reveal(Seq::filter);
    }
    while i < bytes.len()
        invariant
            i <= bytes.len(),
            kept@ == bytes@.take(i as int).filter(is_ascii_byte()),
            is_ascii_bytes(kept@),
        decreases bytes.len() - i,
    {
        let b = bytes[i];
        if b < 128 {
            kept.push(b);
        }
        i += 1;
        proof {
            reveal(Seq::filter);
            assert(bytes@.take(i as int).drop_last() =~= bytes@.take(i - 1));
        }
    }
    assert(bytes@.take(bytes.len() as int) =~= bytes@);
    kept
}

/// Compiles a flattened markup tree to a program.
///
/// The elements are taken in order. A text adds its ASCII bytes to the text pool
/// and, if it added any, gives a `Text` over them; the other bytes are dropped.
/// Style tags push and pop, line breaks give `Endl`, everything else is left out.
/// One `Stop` ends the code. Addresses and ranges are 32 bits wide and hold the
/// low 32 bits of the pool's lengths.
pub fn compile(input: &[Element]) -> (program: Program)
    ensures
        program@ == compiled(input@),
        program@.ends_in_stop(),
        input@.len() == 0 ==> program@.code == seq![Instruction::Stop],
        is_ascii_bytes(program@.text),
        program@.text.len() <= u32::MAX ==> program@.well_formed() && program@.can_list(),
{
    let mut text = ascii::AsciiString::new();
    let mut code: Vec<Instruction> = Vec::new();
    let mut i: usize = 0;
    while i < input.len()
        invariant
            i <= input.len(),
            pool_bytes(text) == compiled_body(input@.take(i as int)).text,
            code@ == compiled_body(input@.take(i as int)).code,
        decreases input.len() - i,
    {
        let ghost before = compiled_body(input@.take(i as int));
        proof {
            assert(input@.take(i + 1).drop_last() =~= input@.take(i as int));
            assert(input@.take(i + 1).last() == input@[i as int]);
        }
        match &input[i] {
            Element::Text(content) => {
                let start = text.len();
                let kept = ascii_bytes_of(content.as_str().as_bytes());
                let count = kept.len();
                match pool_from_bytes(kept) {
                    Ok(more) => {
                        pool_append(&mut text, &more);
                    },
                    Err(_) => {
                        assert(false);
                    },
                }
                if count > 0 {
                    code.push(
                        Instruction::Text(
                            AddressRange { base: Address(start as u32), range: count as u32 },
                        ),
                    );
                }
            },
            Element::Tag(TagKind::LineBreak) => {
                code.push(Instruction::Endl);
            },
            Element::Tag(kind) => {
                match stylevar_from_tag(*kind) {
                    Some(style) => {
                        code.push(Instruction::Push(style));
                    },
                    None => {},
                }
            },
            Element::EndTag(kind) => {
                match stylevar_from_tag(*kind) {
                    Some(style) => {
                        code.push(Instruction::Pop(style));
                    },
                    None => {},
                }
            },
            Element::LineBreak => {
                code.push(Instruction::Endl);
            },
            Element::IgnoreTag => {},
        }
        i += 1;
        proof {
            let after = compiled_body(input@.take(i as int));
            assert(pool_bytes(text) =~= after.text);
            assert(code@ =~= after.code);
        }
    }
    code.push(Instruction::Stop);
    proof {
        assert(input@.take(input.len() as int) =~= input@);
        lemma_compiled_body(input@);
        let body = compiled_body(input@);
        let whole = compiled(input@);
        if whole.text.len() <= u32::MAX {
            assert forall|j: int| 0 <= j < whole.code.len() implies (
            #[trigger] whole.code[j] matches Instruction::Text(span) ==> span.within(
                whole.text.len(),
            )) by {
                if j < body.code.len() {
                    assert(whole.code[j] == body.code[j]);
                }
            }
        }
        if input@.len() == 0 {
            assert(code@ =~= seq![Instruction::Stop]);
        }
        if whole.text.len() <= u32::MAX {
            lemma_well_formed_can_list(whole);
        }
    }
    Program { text, code }
}

} // verus!
