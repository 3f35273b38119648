use ascii::AsciiString;
use swb::instruction::{pack_u32_into_u64, parse_address_range, parse_style_var, unpack_u64};
use swb::{
    Address, AddressRange, BinaryInstruction, BinaryProgram, Error, Instruction, Program, StyleVar,
    ToBinary,
};

fn pool(text: &str) -> AsciiString {
    AsciiString::from_ascii(text.as_bytes().to_vec()).unwrap()
}

fn hi_program() -> Program {
    Program {
        text: pool("Hi"),
        code: vec![
            Instruction::Push(StyleVar::Bold),
            Instruction::Text(AddressRange { base: Address(0), range: 2 }),
            Instruction::Pop(StyleVar::Bold),
            Instruction::Stop,
        ],
    }
}

#[test]
fn test_from_binary() {
    let program = Program {
        text: AsciiString::from_ascii(*b"Hello").unwrap(),
        code: vec![
            Instruction::Push(StyleVar::Bold),
            Instruction::Text(AddressRange { base: Address(0), range: 5 }),
            Instruction::Pop(StyleVar::Bold),
            Instruction::Stop,
        ],
    };
    let bytes = program.clone().to_binary().into_byte_buffer();
    let converted = Program::try_from(bytes.as_slice());
    assert!(converted.is_ok());
    assert_eq!(program, converted.unwrap());
}

#[test]
fn fixed_layout_of_hi() {
    let bytes = hi_program().to_binary().into_byte_buffer();
    let expected: Vec<u8> = vec![
        0x02, 0, 0, 0, 0, 0, 0, 0, // length of the text
        0x48, 0x69, // "Hi"
        0x02, 0x01, 0, 0, 0, 0, 0, 0, 0, // push bold
        0x01, 0, 0, 0, 0, 0x02, 0, 0, 0, // text 0, 2
        0x03, 0x01, 0, 0, 0, 0, 0, 0, 0, // pop bold
        0x00, 0, 0, 0, 0, 0, 0, 0, 0, // stop
    ];
    assert_eq!(bytes, expected);
    assert_eq!(bytes.len(), 8 + 2 + 9 * 4);
}

#[test]
fn records_of_hi() {
    let binary = hi_program().to_binary();
    assert_eq!(binary.text, pool("Hi"));
    assert_eq!(
        binary.code,
        vec![
            BinaryInstruction { ty: 2, arg: 0x0000_0000_0000_0001 },
            BinaryInstruction { ty: 1, arg: 0x0000_0002_0000_0000 },
            BinaryInstruction { ty: 3, arg: 0x0000_0000_0000_0001 },
            BinaryInstruction { ty: 0, arg: 0 },
        ]
    );
}

#[test]
fn round_trip_keeps_every_instruction() {
    let program = Program {
        text: pool("one two three"),
        code: vec![
            Instruction::Text(AddressRange { base: Address(0), range: 3 }),
            Instruction::Endl,
            Instruction::Push(StyleVar::Italic),
            Instruction::Text(AddressRange { base: Address(4), range: 3 }),
            Instruction::Push(StyleVar::Bold),
            Instruction::Text(AddressRange { base: Address(8), range: 5 }),
            Instruction::Pop(StyleVar::Bold),
            Instruction::Pop(StyleVar::Italic),
            Instruction::Stop,
        ],
    };
    let bytes = program.clone().to_binary().into_byte_buffer();
    assert!(Program::has_ascii_text(&bytes));
    assert_eq!(Program::try_from(&bytes), Ok(program));
}

#[test]
fn round_trip_of_empty_text() {
    let program = Program { text: AsciiString::new(), code: vec![Instruction::Stop] };
    let bytes = program.clone().to_binary().into_byte_buffer();
    assert_eq!(bytes, vec![0, 0, 0, 0, 0, 0, 0, 0, 0, 0, 0, 0, 0, 0, 0, 0, 0]);
    assert_eq!(Program::try_from(&bytes), Ok(program));
}

#[test]
fn decode_keeps_span_outside_text() {
    let mut bytes = vec![1, 0, 0, 0, 0, 0, 0, 0, b'a'];
    bytes.extend_from_slice(&[1, 0x10, 0, 0, 0, 0x20, 0, 0, 0]);
    let program = Program::try_from(&bytes).unwrap();
    assert_eq!(program.text, pool("a"));
    assert_eq!(
        program.code,
        vec![Instruction::Text(AddressRange { base: Address(0x10), range: 0x20 })]
    );
}

#[test]
fn unknown_opcode_is_rejected() {
    let mut bytes = vec![0, 0, 0, 0, 0, 0, 0, 0];
    bytes.extend_from_slice(&[5, 0, 0, 0, 0, 0, 0, 0, 0]);
    assert_eq!(Program::try_from(&bytes), Err(Error::UnknownOpcode(5)));
    assert_eq!(
        Instruction::try_from(BinaryInstruction { ty: 5, arg: 0 }),
        Err(Error::UnknownOpcode(5))
    );
    assert_eq!(
        Instruction::try_from(BinaryInstruction { ty: 255, arg: 1 }),
        Err(Error::UnknownOpcode(255))
    );
}

#[test]
fn misaligned_stream_is_rejected() {
    let mut bytes = vec![2, 0, 0, 0, 0, 0, 0, 0, b'H', b'i'];
    bytes.extend_from_slice(&[0, 0, 0, 0, 0, 0, 0, 0, 0]);
    bytes.push(0);
    assert_eq!(Program::try_from(&bytes), Err(Error::MisalignedInstructionStream));
    let short = vec![0, 0, 0, 0, 0, 0, 0, 0, 4, 0, 0, 0];
    assert_eq!(Program::try_from(&short), Err(Error::MisalignedInstructionStream));
}

#[test]
fn misalignment_comes_before_a_bad_record() {
    let mut bytes = vec![0, 0, 0, 0, 0, 0, 0, 0];
    bytes.extend_from_slice(&[9, 0, 0, 0, 0, 0, 0, 0, 0]);
    bytes.push(7);
    assert_eq!(Program::try_from(&bytes), Err(Error::MisalignedInstructionStream));
}

#[test]
fn truncated_header_is_rejected() {
    assert_eq!(Program::try_from(&[]), Err(Error::TruncatedHeader));
    assert_eq!(Program::try_from(&[1, 0, 0, 0, 0, 0, 0]), Err(Error::TruncatedHeader));
}

#[test]
fn truncated_text_is_rejected() {
    assert_eq!(Program::try_from(&[3, 0, 0, 0, 0, 0, 0, 0, b'a', b'b']), Err(Error::TruncatedText));
    assert_eq!(
        Program::try_from(&[0xff, 0xff, 0xff, 0xff, 0xff, 0xff, 0xff, 0xff]),
        Err(Error::TruncatedText)
    );
}

#[test]
fn invalid_style_is_rejected() {
    let mut bytes = vec![0, 0, 0, 0, 0, 0, 0, 0];
    bytes.extend_from_slice(&[2, 3, 0, 0, 0, 0, 0, 0, 0]);
    assert_eq!(Program::try_from(&bytes), Err(Error::InvalidStyleVarEncoding(3)));
    assert_eq!(parse_style_var(0), Err(Error::InvalidStyleVarEncoding(0)));
    assert_eq!(
        Instruction::try_from(BinaryInstruction { ty: 3, arg: 0x1_0000_0001 }),
        Err(Error::InvalidStyleVarEncoding(0x1_0000_0001))
    );
}

#[test]
fn first_bad_record_decides_the_error() {
    let mut bytes = vec![0, 0, 0, 0, 0, 0, 0, 0];
    bytes.extend_from_slice(&[4, 0, 0, 0, 0, 0, 0, 0, 0]);
    bytes.extend_from_slice(&[3, 9, 0, 0, 0, 0, 0, 0, 0]);
    bytes.extend_from_slice(&[8, 0, 0, 0, 0, 0, 0, 0, 0]);
    assert_eq!(Program::try_from(&bytes), Err(Error::InvalidStyleVarEncoding(9)));
}

#[test]
fn records_behind_stop_are_still_read() {
    let mut bytes = vec![0, 0, 0, 0, 0, 0, 0, 0];
    bytes.extend_from_slice(&[0, 0, 0, 0, 0, 0, 0, 0, 0]);
    bytes.extend_from_slice(&[4, 0, 0, 0, 0, 0, 0, 0, 0]);
    let program = Program::try_from(&bytes).unwrap();
    assert_eq!(program.code, vec![Instruction::Stop, Instruction::Endl]);
}

#[test]
fn arguments_of_stop_and_endl_are_not_looked_at() {
    assert_eq!(Instruction::try_from(BinaryInstruction { ty: 0, arg: 77 }), Ok(Instruction::Stop));
    assert_eq!(Instruction::try_from(BinaryInstruction { ty: 4, arg: 77 }), Ok(Instruction::Endl));
}

#[test]
fn text_that_is_not_ascii_is_found() {
    let good = vec![2, 0, 0, 0, 0, 0, 0, 0, b'o', b'k'];
    assert!(Program::has_ascii_text(&good));
    let bad = vec![2, 0, 0, 0, 0, 0, 0, 0, b'o', 0xc3];
    assert!(!Program::has_ascii_text(&bad));
    let behind_text = vec![1, 0, 0, 0, 0, 0, 0, 0, b'o', 0xc3];
    assert!(Program::has_ascii_text(&behind_text));
    assert!(Program::has_ascii_text(&[1, 2, 3]));
    assert!(Program::has_ascii_text(&[9, 0, 0, 0, 0, 0, 0, 0, 0xff]));
}

#[test]
fn packing_puts_lower_low_and_upper_high() {
    assert_eq!(pack_u32_into_u64(0, 2), 0x0000_0002_0000_0000);
    assert_eq!(pack_u32_into_u64(0xdead_beef, 0x1234_5678), 0x1234_5678_dead_beef);
    assert_eq!(pack_u32_into_u64(u32::MAX, u32::MAX), u64::MAX);
    assert_eq!(unpack_u64(0x1234_5678_dead_beef), (0x1234_5678, 0xdead_beef));
    assert_eq!(unpack_u64(5), (0, 5));
}

#[test]
fn span_is_read_from_both_halves() {
    assert_eq!(
        parse_address_range(0x0000_0005_0000_0003),
        AddressRange { base: Address(3), range: 5 }
    );
    assert_eq!(
        Instruction::try_from(BinaryInstruction { ty: 1, arg: 0x0000_0005_0000_0003 }),
        Ok(Instruction::Text(AddressRange { base: Address(3), range: 5 }))
    );
}

#[test]
fn styles_have_their_tags() {
    assert_eq!(StyleVar::Bold.to_binary(), 1);
    assert_eq!(StyleVar::Italic.to_binary(), 2);
    assert_eq!(parse_style_var(1), Ok(StyleVar::Bold));
    assert_eq!(parse_style_var(2), Ok(StyleVar::Italic));
}

#[test]
fn instructions_have_their_records() {
    assert_eq!(Instruction::Stop.to_binary(), BinaryInstruction { ty: 0, arg: 0 });
    assert_eq!(
        Instruction::Text(AddressRange { base: Address(7), range: 1 }).to_binary(),
        BinaryInstruction { ty: 1, arg: 0x0000_0001_0000_0007 }
    );
    assert_eq!(Instruction::Push(StyleVar::Italic).to_binary(), BinaryInstruction { ty: 2, arg: 2 });
    assert_eq!(Instruction::Pop(StyleVar::Bold).to_binary(), BinaryInstruction { ty: 3, arg: 1 });
    assert_eq!(Instruction::Endl.to_binary(), BinaryInstruction { ty: 4, arg: 0 });
}

#[test]
fn record_is_nine_bytes_little_endian() {
    let record = BinaryInstruction { ty: 1, arg: 0x0807_0605_0403_0201 };
    assert_eq!(record.into_bytes(), [1, 1, 2, 3, 4, 5, 6, 7, 8]);
    assert_eq!(BinaryInstruction::try_from([1, 1, 2, 3, 4, 5, 6, 7, 8]), Ok(record));
    assert_eq!(
        BinaryInstruction::try_from([9, 0, 0, 0, 0, 0, 0, 0, 0x80]),
        Ok(BinaryInstruction { ty: 9, arg: 0x8000_0000_0000_0000 })
    );
}

#[test]
fn binary_program_is_written_as_it_stands() {
    let binary = BinaryProgram {
        text: pool("abc"),
        code: vec![BinaryInstruction { ty: 200, arg: 0x0102 }],
    };
    assert_eq!(
        binary.into_byte_buffer(),
        vec![3, 0, 0, 0, 0, 0, 0, 0, b'a', b'b', b'c', 200, 2, 1, 0, 0, 0, 0, 0, 0]
    );
}

#[test]
fn offset_moves_both_ways() {
    assert_eq!(Address(10).offset(5), Address(15));
    assert_eq!(Address(10).offset(-10), Address(0));
    assert_eq!(Address(0x7fff_ffff).offset(1), Address(0x8000_0000));
    assert_eq!(Address(u32::MAX).offset(i32::MIN), Address(0x7fff_ffff));
}
