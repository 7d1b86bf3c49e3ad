use rchip8::assembler::{parse_asm_str, parse_asm_str_with_warnings, parse_vx, parse_xx, split_asm_line, AsmArg};
use rchip8::instr::{AddrOp, Instr};

#[test]
fn expected_parse_vx() {
    assert_eq!(u8::from(1), parse_vx(&AsmArg::new(String::from("V1"), 0)).unwrap());
    match parse_vx(&AsmArg::new(String::from("B1"), 0)) {
        Ok(_) => panic!(),
        Err(e) => assert_eq!("VX arg does not begin with \"V\"", e.msg),
    }
}

#[test]
fn expected_parse_xx() {
    assert_eq!(u8::from(0x12), parse_xx(&AsmArg::new(String::from("0x12"), 0)).unwrap());
}

#[test]
fn expected_split_asm_line() {
    // Comments are expected to be gone by this point
    let tests: Vec<(&str, Vec<AsmArg>)> = vec![
        ("CLS", vec![AsmArg::new("CLS".to_string(), 0)]),
        ("JP 0x123", vec![AsmArg::new("JP".to_string(), 0), AsmArg::new("0x123".to_string(), 3)]),
        (
            "DRW ,V0  ,v1,   00012",
            vec![
                AsmArg::new("DRW".to_string(), 0),
                AsmArg::new("V0".to_string(), 5),
                AsmArg::new("v1".to_string(), 10),
                AsmArg::new("00012".to_string(), 16),
            ],
        ),
        ("JP F", vec![AsmArg::new("JP".to_string(), 0), AsmArg::new("F".to_string(), 3)]),
        (
            "AND V0, abc",
            vec![
                AsmArg::new("AND".to_string(), 0),
                AsmArg::new("V0".to_string(), 4),
                AsmArg::new("abc".to_string(), 8),
            ],
        ),
    ];
    for (input, expected) in tests {
        assert_eq!(expected, split_asm_line(input));
    }
}

#[test]
fn basic_assembly_test() {
    let expected = [
        "SYS 0x123",
        "CLS",
        "RET",
        "JP 0x123",
        "JP V0, 0x123",
        "CALL 0x123",
        "SHR V0",
        "SHL V0",
        "SKP V0",
        "SKNP V0",
        "DRW V0, V1, 12",
        "AND V0, V1",
        "XOR V0, V1",
        "OR V0, V1",
        "SUB V0, V1",
        "SUBN V0, V1",
        "RND V0, 0x12",
        "SE V0, 0x12",
        "SE V0, V1",
        "SNE V0, 0x12",
        "SNE V0, V1",
        "ADD I, V0",
        "ADD V0, V1",
        "ADD V0, 0x12",
        "LD V0, 0x12",
        "LD V0, V1",
        "LD I, 0x123",
        "LD V0, DT",
        "LD V0, K",
        "LD V0, [I]",
        "LD DT, V0",
        "LD ST, V0",
        "LD F, V0",
        "LD B, V0",
        "LD [I], V0",
        ".word 0x1234",
    ]
    .iter()
    .map(|x| x.to_string())
    .collect::<Vec<String>>();
    let source = expected.iter().fold(String::from(""), |acc, n| acc + "\n" + n);
    let got = parse_asm_str(&source).unwrap();
    assert_eq!(expected.len(), got.len());
    for (e, g) in expected.iter().zip(got.iter()) {
        assert_eq!(*e, g.repr());
    }
}

fn assert_asm_roundtrip(tests: &[(&str, &str)]) {
    for (input, expected) in tests.iter() {
        let in_str = input.to_string();
        assert_eq!(*expected, parse_asm_str(&in_str).unwrap()[0].repr());
    }
}

#[test]
fn either_case_mnemonics() {
    let tests = [
        ("cls", "CLS"),
        ("jp 0x123", "JP 0x123"),
        ("add V0, V1", "ADD V0, V1"),
        (".WORD 0x1234", ".word 0x1234"),
    ];
    assert_asm_roundtrip(&tests);
}

#[test]
fn either_case_and_hex_v_regs() {
    let tests = [
        ("ADD V0, V1", "ADD V0, V1"),
        ("ADD v0, V1", "ADD V0, V1"),
        ("ADD V0, v1", "ADD V0, V1"),
        ("ADD V0000000, v1", "ADD V0, V1"),
        ("ADD V00F, v1", "ADD V15, V1"),
        ("ADD VA, V10", "ADD V10, V10"),
        ("ADD V02, VF", "ADD V2, V15"),
        ("JP V0, 0x123", "JP V0, 0x123"),
        ("JP v0, 0x456", "JP V0, 0x456"),
        ("JP V000, 0x789", "JP V0, 0x789"),
    ];
    assert_asm_roundtrip(&tests);
}

#[test]
fn hex_number_formatting_accepted() {
    let tests = [
        ("SYS 0x123", "SYS 0x123"),
        ("SYS 0x23", "SYS 0x023"),
        ("SYS 0x0000000023", "SYS 0x023"),
        ("SYS 0x0000000323", "SYS 0x323"),
        ("RND V0, 0x12", "RND V0, 0x12"),
        ("RND V0, 0x2", "RND V0, 0x02"),
        ("RND V0, 0x00000002", "RND V0, 0x02"),
        (".word 0x1234", ".word 0x1234"),
        (".word 0x234", ".word 0x0234"),
        (".word 0x34", ".word 0x0034"),
        (".word 0x4", ".word 0x0004"),
        (".word 0x00000004", ".word 0x0004"),
        (".word 0x00001234", ".word 0x1234"),
        (".word 0xFaBc", ".word 0xFABC"),
    ];
    assert_asm_roundtrip(&tests);
}

#[test]
fn nibble_formatting_accepted() {
    let tests = [("DRW V0, V1, 0001", "DRW V0, V1, 1"), ("DRW V0, V1, 012", "DRW V0, V1, 12")];
    assert_asm_roundtrip(&tests);
}

fn assert_asm_bitpatterns(source: &String, expected: &[u16]) {
    let got = parse_asm_str(source).unwrap();
    assert_eq!(expected.len(), got.len());
    for (instr, exp) in got.iter().zip(expected.iter()) {
        assert_eq!(*exp, instr.get_opcode());
    }
}

#[test]
fn test_blank_lines_ignored() {
    let source = "
        JP t
        \t
        t:
        DRW V0, V1, 6
             \n\
        ADD V0, 0x34"
        .to_string();
    let expected: Vec<u16> = vec![0x1202, 0xD016, 0x7034];
    assert_asm_bitpatterns(&source, &expected);
}

#[test]
fn test_single_line_comments_ignored() {
    let source = "
        // This is a single line comment
        DRW V5, V2, 7
        LD F, V9 // This is one the end of a line
        LD ST, V2// This one has no space after the arg
        CLS//This one LD ST, V7 includes an instr"
        .to_string();
    let expected: Vec<u16> = vec![0xD527, 0xF929, 0xF218, 0x00E0];
    assert_asm_bitpatterns(&source, &expected);
}

#[test]
fn branch_back_to_label() {
    let source = "
            SYS 0x000
            // Comment lines don't increment address
        foo:
            SYS 0x111
        bar:: // Should be refered to as 'bar:' just fine
            JP foo
            JP bar:"
        .to_string();
    let expected: Vec<u16> = vec![0x0000, 0x0111, 0x1202, 0x1204];
    assert_asm_bitpatterns(&source, &expected);
}

#[test]
fn branch_forward_to_label() {
    let source = "\
            JP start
            CALL start
            SYS start
            JP V0, start
            LD I, start
        start:
        self:
            JP self"
        .to_string();
    let expected: Vec<u16> = vec![0x120a, 0x220a, 0x020a, 0xB20a, 0xA20a, 0x120a];
    assert_asm_bitpatterns(&source, &expected);
}

#[test]
fn symbol_capable_instructions() {
    let source = "
            SYS 0x000
            SYS 0x000
        target:
            SYS target
            JP target
            CALL target
            LD I, target"
        .to_string();
    let expected: Vec<u16> = vec![0x0000, 0x0000, 0x0204, 0x1204, 0x2204, 0xA204];
    assert_asm_bitpatterns(&source, &expected);
}

#[test]
fn handling_symbol_instrs() {
    let sym = "foo".to_string();
    let instrs = [
        Instr::symbol(AddrOp::Sys, sym.to_owned()),
        Instr::symbol(AddrOp::Jp, sym.to_owned()),
        Instr::symbol(AddrOp::Call, sym.to_owned()),
        Instr::symbol(AddrOp::LdI, sym.to_owned()),
        Instr::symbol(AddrOp::JpV0, sym.to_owned()),
    ];
    let expected_repr = ["SYS foo", "JP foo", "CALL foo", "LD I, foo", "JP V0, foo"];
    for (ins, expected) in instrs.iter().zip(expected_repr.iter()) {
        assert_eq!(String::from(*expected), ins.repr());
    }
}

#[test]
fn set_i_extended_address() {
    // Standard jump with remainder
    let source = "LD I, 0x1999".to_string();
    let expected: Vec<u16> = vec![
        0xAFFF, 0x6EFF, 0xFE1E, 0xFE1E, 0xFE1E, 0xFE1E, 0xFE1E, 0xFE1E, 0xFE1E, 0xFE1E, 0xFE1E,
        0x6Ea3, 0xFE1E,
    ];
    assert_asm_bitpatterns(&source, &expected);

    // No remainder here
    let source2 = "LD I, 0x11FD".to_string();
    let expected2: Vec<u16> = vec![0xAFFF, 0x6EFF, 0xFE1E, 0xFE1E];
    assert_asm_bitpatterns(&source2, &expected2);

    // Only remainder
    let source3 = "LD I, 0x100B".to_string();
    let expected3: Vec<u16> = vec![0xAFFF, 0x6E0C, 0xFE1E];
    assert_asm_bitpatterns(&source3, &expected3);

    // Addr <= 0xfff, just uses a single instr
    let source4 = "LD I, 0x123".to_string();
    let expected4: Vec<u16> = vec![0xA123];
    assert_asm_bitpatterns(&source4, &expected4);
}

#[test]
fn word_directive() {
    let source = "
            CALL end // Jump to check that .word does increment the address
            .word 0x1234
            ADD V0, V1
            .word 0x0000
            .word 0x2111 // Value can overlap real instructions
        end:
            ADD V2, V3"
        .to_string();
    let expected: Vec<u16> = vec![0x220A, 0x1234, 0x8014, 0x0000, 0x2111, 0x8234];
    assert_asm_bitpatterns(&source, &expected);
}

#[test]
fn asm_err_messages() {
    let tests: Vec<(&str, &str)> = vec![
        ("FOOD", "<str>:0:0: error: Can't get number of args for mnemonic: FOOD\nFOOD\n^~~~"),
        ("CLS V0", "<str>:0:0: error: Expected 0 args for CLS, got 1\nCLS V0\n^~~"),
        ("SHR z0", "<str>:0:4: error: VX arg does not begin with \"V\"\nSHR z0\n    ^~"),
        ("SHL V21", "<str>:0:4: error: V register index cannot be > 0xF\nSHL V21\n    ^~~"),
        ("SKP Vfood", "<str>:0:4: error: Invalid V register: \"Vfood\"\nSKP Vfood\n    ^~~~~"),
        ("SKP food", "<str>:0:4: error: VX arg does not begin with \"V\"\nSKP food\n    ^~~~"),
        ("SKP f", "<str>:0:4: error: VX arg does not begin with \"V\"\nSKP f\n    ^"),
        ("SKNP V1F", "<str>:0:5: error: V register index cannot be > 0xF\nSKNP V1F\n     ^~~"),
        ("SUB f0, V2", "<str>:0:4: error: VX arg does not begin with \"V\"\nSUB f0, V2\n    ^~"),
        ("SUBN V0, Z0", "<str>:0:9: error: VX arg does not begin with \"V\"\nSUBN V0, Z0\n         ^~"),
        ("XOR V21, V0", "<str>:0:4: error: V register index cannot be > 0xF\nXOR V21, V0\n    ^~~"),
        ("XOR V1, V33", "<str>:0:8: error: V register index cannot be > 0xF\nXOR V1, V33\n        ^~~"),
        ("AND 0x12, V0", "<str>:0:4: error: VX arg does not begin with \"V\"\nAND 0x12, V0\n    ^~~~"),
        ("AND V0, 32", "<str>:0:8: error: VX arg does not begin with \"V\"\nAND V0, 32\n        ^~"),
        ("OR V0, 3", "<str>:0:7: error: VX arg does not begin with \"V\"\nOR V0, 3\n       ^"),
        ("OR 1, vf", "<str>:0:3: error: VX arg does not begin with \"V\"\nOR 1, vf\n   ^"),
        (
            "ADD I, nonsense",
            "<str>:0:7: error: VX arg does not begin with \"V\"\nADD I, nonsense\n       ^~~~~~~~",
        ),
        (
            "ADD stuff, things",
            "<str>:0:4: error: Invalid args for ADD instruction\nADD stuff, things\n    ^~~~~~~~~~~~~",
        ),
    ];
    for (input, expected_err) in tests {
        match parse_asm_str(&String::from(input)) {
            Err(msg) => {
                assert_eq!(expected_err, msg);
            }
            Ok(_) => panic!("Expected an error here!"),
        }
    }
}

#[test]
fn unresolved_symbol_is_reported() {
    let source = "
            JP next
        next:
            CALL next
            JP aardvark"
        .to_string();
    let err = parse_asm_str(&source).unwrap_err();
    assert!(err.contains("Could not resolve symbol \"aardvark\""));
    assert_eq!("<str>:0:0: error: Could not resolve symbol \"aardvark\"\n\n^", err);
}

#[test]
fn repeated_label_is_reported_at_second_definition() {
    let source = "start:\n    CLS\n  start:\n    JP start".to_string();
    let err = parse_asm_str(&source).unwrap_err();
    assert_eq!("<str>:2:2: error: Label repeated\n  start:\n  ^~~~~~", err);
}

#[test]
fn errors_of_all_lines_are_aggregated() {
    let source = "FOO\nCLS\nSHR z0\nJP nowhere".to_string();
    let err = parse_asm_str(&source).unwrap_err();
    assert_eq!(
        "<str>:0:0: error: Can't get number of args for mnemonic: FOO\nFOO\n^~~\n\
         <str>:2:4: error: VX arg does not begin with \"V\"\nSHR z0\n    ^~\n\
         <str>:0:0: error: Could not resolve symbol \"nowhere\"\n\n^",
        err
    );
}

#[test]
fn unused_labels_warn_but_do_not_fail() {
    let mut warnings: Vec<String> = vec![];
    let source = "used:\nunused:\n JP used".to_string();
    let got = parse_asm_str_with_warnings(&source, &mut warnings).unwrap();
    assert_eq!(1, got.len());
    assert_eq!(0x1200, got[0].get_opcode());
    assert_eq!(vec!["<str>: warning: Unused label \"unused\"".to_string()], warnings);
}

#[test]
fn jp_operand_count_and_register_errors() {
    assert_eq!(
        "<str>:0:0: error: Expected 1 or 2 args for JP instruction, got 3\nJP V0, 1, 2\n^~~~~~~~~~~",
        parse_asm_str("JP V0, 1, 2").unwrap_err()
    );
    assert_eq!(
        "<str>:0:3: error: Jump plus instruction can only use V0!\nJP V1, 0x200\n   ^~",
        parse_asm_str("JP V1, 0x200").unwrap_err()
    );
}

#[test]
fn operand_errors_are_recoverable() {
    assert_eq!(
        "<str>:0:6: error: Invalid hex number: invalid digit found in string\n.word 0xZZ\n      ^~~~",
        parse_asm_str(".word 0xZZ").unwrap_err()
    );
    assert_eq!(
        "<str>:0:12: error: Nibble must be < 16\nDRW V0, V1, 16\n            ^~",
        parse_asm_str("DRW V0, V1, 16").unwrap_err()
    );
    assert_eq!(
        "<str>:0:8: error: Byte argument larger than 0xFF\nRND V0, 0x100\n        ^~~~~",
        parse_asm_str("RND V0, 0x100").unwrap_err()
    );
    assert_eq!(
        "<str>:0:7: error: Invalid argument 2 for SE instruction\nSE V0, zz\n       ^~",
        parse_asm_str("SE V0, zz").unwrap_err()
    );
    assert_eq!(
        "<str>:0:3: error: Invalid args to LD instruction\nLD Q, V0\n   ^~~~~",
        parse_asm_str("LD Q, V0").unwrap_err()
    );
}

#[test]
fn crlf_lines_and_brk() {
    let got = parse_asm_str("CLS\r\nBRK\r\n").unwrap();
    assert_eq!(vec![0x00E0, 0x0FFF], got.iter().map(|i| i.get_opcode()).collect::<Vec<u16>>());
}

#[test]
fn mnemonics_fold_case_as_unicode_does() {
    let got = parse_asm_str("\u{17f}e V0, V1").unwrap();
    assert_eq!("SE V0, V1", got[0].repr());
    assert_eq!("SE", AsmArg::new("\u{17f}e".to_string(), 0).upper);
}
