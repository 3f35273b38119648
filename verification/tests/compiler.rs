use ascii::AsciiString;
use swb::{
    compile, stylevar_from_tag, Address, AddressRange, Element, Instruction, Program,
    RenderAction, StyleState, StyleVar, StyleVarStack, TagKind,
};

fn text(content: &str) -> Element {
    Element::Text(String::from(content))
}

fn pool(text: &str) -> AsciiString {
    AsciiString::from_ascii(text.as_bytes().to_vec()).unwrap()
}

#[test]
fn empty_input_gives_stop_alone() {
    let program = compile(&[]);
    assert_eq!(program.code, vec![Instruction::Stop]);
    assert_eq!(program.text, AsciiString::new());
}

#[test]
fn code_ends_in_stop() {
    let program = compile(&[text("a"), Element::LineBreak, Element::Tag(TagKind::Bold)]);
    assert_eq!(program.code.last(), Some(&Instruction::Stop));
    let stops = program.code.iter().filter(|i| **i == Instruction::Stop).count();
    assert_eq!(stops, 1);
}

#[test]
fn only_ascii_bytes_enter_the_pool() {
    let program = compile(&[text("ab"), text("café"), text("!")]);
    assert_eq!(program.text, pool("abcaf!"));
    assert_eq!(
        program.code,
        vec![
            Instruction::Text(AddressRange { base: Address(0), range: 2 }),
            Instruction::Text(AddressRange { base: Address(2), range: 3 }),
            Instruction::Text(AddressRange { base: Address(5), range: 1 }),
            Instruction::Stop,
        ]
    );
}

#[test]
fn text_without_ascii_gives_no_instruction() {
    let program = compile(&[text("a"), text(""), text("éü"), text("b")]);
    assert_eq!(program.text, pool("ab"));
    assert_eq!(
        program.code,
        vec![
            Instruction::Text(AddressRange { base: Address(0), range: 1 }),
            Instruction::Text(AddressRange { base: Address(1), range: 1 }),
            Instruction::Stop,
        ]
    );
}

#[test]
fn every_element_kind_is_compiled() {
    let program = compile(&[
        Element::Tag(TagKind::Bold),
        text("Hello"),
        Element::EndTag(TagKind::Bold),
        Element::Tag(TagKind::LineBreak),
        Element::Tag(TagKind::Italic),
        text("world"),
        Element::EndTag(TagKind::Italic),
        Element::LineBreak,
        Element::IgnoreTag,
        Element::Tag(TagKind::Other),
        Element::EndTag(TagKind::Other),
        Element::EndTag(TagKind::LineBreak),
    ]);
    assert_eq!(program.text, pool("Helloworld"));
    assert_eq!(
        program.code,
        vec![
            Instruction::Push(StyleVar::Bold),
            Instruction::Text(AddressRange { base: Address(0), range: 5 }),
            Instruction::Pop(StyleVar::Bold),
            Instruction::Endl,
            Instruction::Push(StyleVar::Italic),
            Instruction::Text(AddressRange { base: Address(5), range: 5 }),
            Instruction::Pop(StyleVar::Italic),
            Instruction::Endl,
            Instruction::Stop,
        ]
    );
}

#[test]
fn unbalanced_tags_are_compiled_as_they_come() {
    let program = compile(&[Element::EndTag(TagKind::Italic), Element::Tag(TagKind::Bold)]);
    assert_eq!(
        program.code,
        vec![Instruction::Pop(StyleVar::Italic), Instruction::Push(StyleVar::Bold), Instruction::Stop]
    );
}

#[test]
fn compiled_program_survives_the_buffer() {
    let program = compile(&[
        Element::Tag(TagKind::Bold),
        text("naïve café"),
        Element::EndTag(TagKind::Bold),
        Element::LineBreak,
    ]);
    assert_eq!(program.text, pool("nave caf"));
    let bytes = program.clone().to_binary().into_byte_buffer();
    assert_eq!(Program::try_from(&bytes), Ok(program));
}

#[test]
fn tags_name_their_styles() {
    assert_eq!(stylevar_from_tag(TagKind::Bold), Some(StyleVar::Bold));
    assert_eq!(stylevar_from_tag(TagKind::Italic), Some(StyleVar::Italic));
    assert_eq!(stylevar_from_tag(TagKind::LineBreak), None);
    assert_eq!(stylevar_from_tag(TagKind::Other), None);
}

#[test]
fn stack_counts_pushes_and_pops() {
    let mut stack = StyleVarStack::new();
    assert!(!stack.is_enabled());
    assert!(stack.can_push());
    stack.push();
    stack.push();
    assert!(stack.is_enabled());
    stack.pop();
    assert!(stack.is_enabled());
    stack.pop();
    assert!(!stack.is_enabled());
}

#[test]
fn styles_nest_independently() {
    let span = AddressRange { base: Address(0), range: 4 };
    let code = [
        Instruction::Push(StyleVar::Bold),
        Instruction::Push(StyleVar::Italic),
        Instruction::Pop(StyleVar::Bold),
        Instruction::Text(span),
        Instruction::Pop(StyleVar::Italic),
    ];
    let mut state = StyleState::new();
    let mut actions = Vec::new();
    for instruction in &code {
        assert!(state.can_step(instruction));
        actions.push(state.step(instruction));
    }
    assert_eq!(
        actions,
        vec![
            RenderAction::Restyle,
            RenderAction::Restyle,
            RenderAction::Restyle,
            RenderAction::Draw { span, bold: false, italic: true },
            RenderAction::Restyle,
        ]
    );
    assert!(!state.bold.is_enabled());
    assert!(!state.italic.is_enabled());
}

#[test]
fn nested_pushes_of_one_style_need_as_many_pops() {
    let span = AddressRange { base: Address(2), range: 1 };
    let mut state = StyleState::new();
    state.step(&Instruction::Push(StyleVar::Bold));
    state.step(&Instruction::Push(StyleVar::Bold));
    state.step(&Instruction::Pop(StyleVar::Bold));
    assert_eq!(
        state.step(&Instruction::Text(span)),
        RenderAction::Draw { span, bold: true, italic: false }
    );
    state.step(&Instruction::Pop(StyleVar::Bold));
    assert_eq!(
        state.step(&Instruction::Text(span)),
        RenderAction::Draw { span, bold: false, italic: false }
    );
}

#[test]
fn endl_and_stop_leave_the_styles() {
    let mut state = StyleState::new();
    state.step(&Instruction::Push(StyleVar::Italic));
    assert_eq!(state.step(&Instruction::Endl), RenderAction::NewLine);
    assert!(state.italic.is_enabled());
    assert_eq!(state.step(&Instruction::Stop), RenderAction::Halt);
    assert!(state.italic.is_enabled());
    assert!(!state.bold.is_enabled());
}

#[test]
fn pop_of_a_style_that_is_off_is_not_accepted() {
    let state = StyleState::new();
    assert!(!state.can_step(&Instruction::Pop(StyleVar::Bold)));
    assert!(!state.can_step(&Instruction::Pop(StyleVar::Italic)));
    assert!(state.can_step(&Instruction::Push(StyleVar::Bold)));
    assert!(state.can_step(&Instruction::Stop));
}
