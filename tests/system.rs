use rchip8::assembler::parse_asm_str;
use rchip8::instr::{AddrOp, ByteOp, DrawSpriteInstr, Instr, InstrFlags, NoArgOp, PairOp, RegOp};
use rchip8::system::{instrs_to_rom, make_system, Chip8System, Fault};
use std::collections::HashSet;

fn all_valid_chip8_instrs() -> Vec<u16> {
    // Every bit pattern that should decode to a valid instruction
    let mut instrs: Vec<u16> = vec![];

    let alls: [u16; 11] = [0x0, 0x1, 0x2, 0x3, 0x4, 0x6, 0x7, 0xA, 0xB, 0xC, 0xD];
    for n in alls.iter() {
        let base = n << 12;
        for i in 0..0x1000_u16 {
            instrs.push(base + i);
        }
    }

    let bases: [u16; 2] = [0x5000, 0x9000];
    for base in bases.iter() {
        for n in 0..0x100_u16 {
            instrs.push(base + (n << 4));
        }
    }

    let eight_ends: [u16; 9] = [0x0, 0x1, 0x2, 0x3, 0x4, 0x5, 0x6, 0x7, 0xE];
    for end in eight_ends.iter() {
        let base = 0x8000 | *end;
        for n in 0..0x100_u16 {
            instrs.push(base + (n << 4));
        }
    }

    let e_ends: [u16; 2] = [0x9E, 0xA1];
    for end in e_ends.iter() {
        let base = 0xE000 | *end;
        for n in 0..0x10_u16 {
            instrs.push(base + (n << 8));
        }
    }

    let f_ends: [u16; 9] = [0x07, 0x0A, 0x15, 0x18, 0x1E, 0x29, 0x33, 0x55, 0x65];
    for end in f_ends.iter() {
        let base = 0xF000 | *end;
        for n in 0..0x10_u16 {
            instrs.push(base + (n << 8));
        }
    }

    instrs
}

#[test]
fn do_all_valid_chip8_instr() {
    let instrs = all_valid_chip8_instrs();
    let dummy: Vec<u8> = vec![];
    let mut c8 = make_system(&dummy);

    // Execute every instruction from a reset state, so that something like
    // a jump to itself does not hold up the rest
    for i in instrs.iter() {
        // Lets a RET run without a matching CALL
        c8.stack.push(0x200);

        match c8.get_opcode_obj(*i) {
            Err(e) => panic!("{:?}", e),
            Ok(instr) => c8.execute(&instr).unwrap(),
        }

        c8.reset_regs();
    }
}

#[test]
fn all_invalid_chip8_should_panic() {
    let all_instrs: HashSet<u16> = all_valid_chip8_instrs().into_iter().collect();
    let all_encodings: HashSet<u16> = (0..0xFFFF_u16).collect();
    let invalid_instrs = all_encodings.difference(&all_instrs);

    let dummy: Vec<u8> = vec![];
    let c8 = make_system(&dummy);
    for i in invalid_instrs {
        let decode = c8.get_opcode_obj(*i);
        assert!(decode.is_err());
    }
}

fn setup_max_gp_regs(c8: &mut Chip8System) {
    for r in c8.v_regs.iter_mut() {
        *r = u8::MAX;
    }
}

#[test]
fn all_chip8_instr_max_gp_reg_values() {
    let valid_instrs = all_valid_chip8_instrs();

    let dummy: Vec<u8> = vec![];
    let mut c8 = make_system(&dummy);

    for i in valid_instrs {
        c8.reset_regs();
        setup_max_gp_regs(&mut c8);
        c8.stack.push(0x200);

        let instr = c8.get_opcode_obj(i).unwrap();
        // Key indexes above 15 are faults, checked elsewhere
        if instr.get_flags() != InstrFlags::Keys {
            c8.execute(&instr).unwrap();
        }
    }
}

fn setup_nested_call_test() -> Chip8System {
    // CALL 0x200: calls itself, so one instruction is enough
    let instrs: Vec<u8> = vec![0x22, 0x00];
    let mut c8 = make_system(&instrs);

    // One short of the limit
    for _ in 0..16 {
        let ins = c8.fetch_and_decode().unwrap();
        c8.execute(&ins).unwrap();
    }
    c8
}

#[test]
fn call_to_full_stack() {
    let _ = setup_nested_call_test();
}

#[test]
fn ret_to_empty_stack() {
    let mut c8 = setup_nested_call_test();
    let pc = 0x200;
    // RET: after all those calls to 0x200, each return lands on 0x200
    c8.memory[pc] = 0x00;
    c8.memory[pc + 1] = 0xEE;

    for _ in 0..16 {
        let ins = c8.fetch_and_decode().unwrap();
        c8.execute(&ins).unwrap();
    }
}

#[test]
fn stack_nested_calls_fault() {
    let mut c8 = setup_nested_call_test();
    let ins = c8.fetch_and_decode().unwrap();
    assert_eq!(Err(Fault::StackOverflow), c8.execute(&ins));
    assert_eq!(16, c8.stack.len());
}

#[test]
fn ret_empty_stack_fault() {
    let instrs: Vec<u8> = vec![0x00, 0xEE];
    let mut c8 = make_system(&instrs);
    let ins = c8.fetch_and_decode().unwrap();
    assert_eq!(Err(Fault::StackUnderflow), c8.execute(&ins));
}

#[test]
fn valid_key_indexes() {
    let dummy: Vec<u8> = vec![];
    let mut c8 = make_system(&dummy);
    // Both on V0
    let instrs: Vec<u16> = vec![0xE09E, 0xE0A1];

    for key in 0..16_u8 {
        c8.v_regs[0] = key;
        for instr in instrs.iter() {
            match c8.get_opcode_obj(*instr) {
                Err(e) => panic!("{:?}", e),
                Ok(instr) => c8.execute(&instr).unwrap(),
            }
        }
    }
}

fn setup_invalid_key_test() -> Chip8System {
    // SKP V0; SKNP V0
    let rom: Vec<u8> = vec![0xE0, 0x9E, 0xE0, 0xA1];
    make_system(&rom)
}

#[test]
fn invalid_key_index_faults() {
    let mut c8 = setup_invalid_key_test();
    c8.v_regs[0] = 16;
    let ins = c8.fetch_and_decode().unwrap();
    assert_eq!(Err(Fault::KeyOutOfRange(16)), c8.execute(&ins));
    let ins = c8.fetch_and_decode().unwrap();
    assert_eq!(Err(Fault::KeyOutOfRange(16)), c8.execute(&ins));
}

#[test]
fn out_of_bounds_i_reg_faults() {
    let rom: Vec<u8> = vec![
        0xF0, 0x33, // Store BCD
        0xF3, 0x55, // Store registers
        0xF3, 0x65, // Load registers
    ];
    let mut c8 = make_system(&rom);
    c8.i_reg = 0xFFFE;
    let ins = c8.fetch_and_decode().unwrap();
    assert_eq!(Err(Fault::MemoryOutOfBounds(0xFFFE, 3)), c8.execute(&ins));
    let ins = c8.fetch_and_decode().unwrap();
    assert_eq!(Err(Fault::MemoryOutOfBounds(0xFFFE, 4)), c8.execute(&ins));
    let ins = c8.fetch_and_decode().unwrap();
    assert_eq!(Err(Fault::MemoryOutOfBounds(0xFFFE, 4)), c8.execute(&ins));
    // The last three bytes of memory are in reach
    c8.i_reg = 0xFFFD;
    c8.v_regs[0] = 255;
    assert_eq!(Ok(()), c8.execute(&Instr::reg(RegOp::Bcd, 0)));
    assert_eq!(vec![2, 5, 5], c8.memory[0xFFFD..].to_vec());
}

const PROG_EXPECTED: &str = "\
        ----------------------------------------------------------------\n\
        ----------------------------------------------------------------\n\
        ----------------------------------------------------------------\n\
        ----------------------------------------------------------------\n\
        ----------------------------------------------------------------\n\
        ----------------------------------------------------------------\n\
        ----------------------------------------------------------------\n\
        --@@@@------@-----@@@@----@@@@----@--@----@@@@----@@@@----@@@@--\n\
        --@--@-----@@--------@-------@----@--@----@-------@----------@--\n\
        --@--@------@-----@@@@----@@@@----@@@@----@@@@----@@@@------@---\n\
        --@--@------@-----@----------@-------@-------@----@--@-----@----\n\
        --@@@@-----@@@----@@@@----@@@@-------@----@@@@----@@@@-----@----\n\
        ----------------------------------------------------------------\n\
        ----------------------------------------------------------------\n\
        ----------------------------------------------------------------\n\
        ----------------------------------------------------------------\n\
        ----------------------------------------------------------------\n\
        ----------------------------------------------------------------\n\
        ----------------------------------------------------------------\n\
        ----------------------------------------------------------------\n\
        --@@@@----@@@@----@@@@----@@@-----@@@@----@@@-----@@@@----@@@@--\n\
        --@--@----@--@----@--@----@--@----@-------@--@----@-------@-----\n\
        --@@@@----@@@@----@@@@----@@@-----@-------@--@----@@@@----@@@@--\n\
        --@--@-------@----@--@----@--@----@-------@--@----@-------@-----\n\
        --@@@@----@@@@----@--@----@@@-----@@@@----@@@-----@@@@----@-----\n\
        ----------------------------------------------------------------\n\
        ----------------------------------------------------------------\n\
        ----------------------------------------------------------------\n\
        ----------------------------------------------------------------\n\
        ----------------------------------------------------------------\n\
        ----------------------------------------------------------------\n\
        ----------------------------------------------------------------";

fn run_until(c8: &mut Chip8System, target: u16) {
    while c8.pc != target {
        let ins = c8.fetch_and_decode().unwrap();
        c8.execute(&ins).unwrap();
    }
}

#[test]
fn basic_instr_building() {
    let mut instrs: Vec<Instr> = vec![
        // V0 = digit = 0 already
        // V1 = x = 2
        Instr::byte(ByteOp::Add, 1, 2),
        // V2 = y = 7
        Instr::byte(ByteOp::Add, 2, 7),
        // Draw the digit
        Instr::reg(RegOp::Digit, 0),
        Instr::Draw(DrawSpriteInstr::create(1, 2, 5)),
        // Next x
        Instr::byte(ByteOp::Add, 1, 8),
        // After 7, one row down
        Instr::byte(ByteOp::Sne, 0, 7),
        // +5 for the height of a digit
        Instr::byte(ByteOp::Add, 2, 8 + 5),
        // Next digit (after the row check)
        Instr::byte(ByteOp::Add, 0, 1),
        // Until F has been drawn, jump back
        Instr::byte(ByteOp::Se, 0, 0x10),
        // Over the setup of V1/V2
        Instr::address(AddrOp::Jp, 0x204),
    ];

    // A jump to end with
    let target: u16 = (0x200 + (instrs.len() as u16)) * 2;
    instrs.push(Instr::address(AddrOp::Jp, target));

    let rom = instrs_to_rom(&instrs);
    let mut c8 = make_system(&rom);
    run_until(&mut c8, target);

    assert_eq!(PROG_EXPECTED, c8.screen_to_str());
}

#[test]
fn assembling_example_program() {
    let source = "\
        // Setup X and Y
        ADD V1, 0x02\n\
        ADD V2, 0x07\n\
        loop:\n\
        LD F, V0 // Load address of digit\n\
        // Draw it
        DRW V1, V2, 5 // Increment X\n\
        ADD V1, 0x08\n\
        // If we're about to draw char 8, move down a row
        SNE V0, 0x07\n\
        ADD V2, 0x0d\n\
        ADD V0, 0x01 // Increment digit\n\
        // If we just drew 'F' end the program\n\
        SE V0, 0x10\n\
        // Otherwise draw the next char\n\
        JP loop\n\
        self:\n\
        JP self"
        .to_string();

    let instrs = parse_asm_str(&source).unwrap();
    let rom = instrs_to_rom(&instrs);

    let target: u16 = 0x214;
    let mut c8 = make_system(&rom);
    run_until(&mut c8, target);

    assert_eq!(PROG_EXPECTED, c8.screen_to_str());
}

#[test]
fn instrs_have_create() {
    let data = [
        (Instr::address(AddrOp::Sys, 0x736), "SYS 0x736"),
        (Instr::plain(NoArgOp::Cls), "CLS"),
        (Instr::plain(NoArgOp::Ret), "RET"),
        (Instr::address(AddrOp::Jp, 0x123), "JP 0x123"),
        (Instr::address(AddrOp::Call, 0x321), "CALL 0x321"),
        (Instr::byte(ByteOp::Se, 9, 0x45), "SE V9, 0x45"),
        (Instr::byte(ByteOp::Sne, 3, 0x89), "SNE V3, 0x89"),
        (Instr::pair(PairOp::Se, 1, 2), "SE V1, V2"),
        (Instr::byte(ByteOp::Ld, 7, 0x63), "LD V7, 0x63"),
        (Instr::byte(ByteOp::Add, 3, 0x68), "ADD V3, 0x68"),
        (Instr::pair(PairOp::Ld, 0, 4), "LD V0, V4"),
        (Instr::pair(PairOp::Or, 5, 8), "OR V5, V8"),
        (Instr::pair(PairOp::And, 10, 12), "AND V10, V12"),
        (Instr::pair(PairOp::Xor, 13, 2), "XOR V13, V2"),
        (Instr::pair(PairOp::Add, 7, 14), "ADD V7, V14"),
        (Instr::pair(PairOp::Sub, 6, 13), "SUB V6, V13"),
        (Instr::pair(PairOp::Shr, 5, 0), "SHR V5"),
        (Instr::pair(PairOp::Subn, 2, 9), "SUBN V2, V9"),
        (Instr::pair(PairOp::Shl, 11, 0), "SHL V11"),
        (Instr::pair(PairOp::Sne, 10, 3), "SNE V10, V3"),
        (Instr::address(AddrOp::LdI, 0x847), "LD I, 0x847"),
        (Instr::address(AddrOp::JpV0, 0x734), "JP V0, 0x734"),
        (Instr::byte(ByteOp::Rnd, 8, 0x39), "RND V8, 0x39"),
        (Instr::Draw(DrawSpriteInstr::create(5, 7, 10)), "DRW V5, V7, 10"),
        (Instr::reg(RegOp::Skp, 9), "SKP V9"),
        (Instr::reg(RegOp::Sknp, 3), "SKNP V3"),
        (Instr::reg(RegOp::GetDelay, 5), "LD V5, DT"),
        (Instr::reg(RegOp::WaitKey, 11), "LD V11, K"),
        (Instr::reg(RegOp::SetDelay, 6), "LD DT, V6"),
        (Instr::reg(RegOp::SetSound, 12), "LD ST, V12"),
        (Instr::reg(RegOp::AddI, 7), "ADD I, V7"),
        (Instr::reg(RegOp::Digit, 13), "LD F, V13"),
        (Instr::reg(RegOp::Bcd, 6), "LD B, V6"),
        (Instr::reg(RegOp::Store, 15), "LD [I], V15"),
        (Instr::reg(RegOp::Load, 2), "LD V2, [I]"),
    ];

    for (ins, expected) in data.iter() {
        assert_eq!(String::from(*expected), ins.repr());
    }
}

#[test]
fn exec_on_unresolved_symbol_faults() {
    let dummy: Vec<u8> = vec![];
    let mut c8 = make_system(&dummy);
    let ins = Instr::symbol(AddrOp::Sys, "xyz".to_string());
    assert_eq!(Err(Fault::UnresolvedSymbol), c8.execute(&ins));
}

fn make_sprite_asm(sprite: &String) -> Vec<String> {
    let mut sprite_data: [u8; 8 * 16] = [0; 8 * 16];

    for (ln, line) in sprite.lines().enumerate() {
        for (p, c) in line.chars().enumerate() {
            let sprite_idx = ((ln / 8) * 4) + (p / 8);
            let sprite_line = ln % 8;
            let char_idx = p % 8;
            if c == '@' {
                sprite_data[(sprite_idx * 8) + sprite_line] |= 1 << (7 - char_idx);
            }
        }
    }

    let mut data: Vec<u16> = vec![];
    for bytes in sprite_data.chunks(2) {
        data.push(((bytes[0] as u16) << 8) | (bytes[1] as u16));
    }

    data.iter().map(|v| format!(".word 0x{:04x}", v)).collect()
}

#[test]
fn draw_sprite_from_rom() {
    let sprite = "\
        @@@@@@@@@@@@@@@@@@@@@@@@@@@@@@@@\n\
        @------------------------------@\n\
        @-@@@@@@@@@@@@@@@@@@@@@@@@@@@@-@\n\
        @-@--------------------------@-@\n\
        @-@-@@@@@@@@@@@@@@@@@@@@@@@@-@-@\n\
        @-@-@----------------------@-@-@\n\
        @-@-@-@@@@@@@@@@@@@@@@@@@@-@-@-@\n\
        @-@-@-@------------------@-@-@-@\n\
        @-@-@-@-@@@@@@@@@@@@@@@@-@-@-@-@\n\
        @-@-@-@-@--------------@-@-@-@-@\n\
        @-@-@-@-@-@@@@@@@@@@@@-@-@-@-@-@\n\
        @-@-@-@-@-@---------@--@-@-@-@-@\n\
        @-@-@-@-@-@-@@@@@@@-@--@-@-@-@-@\n\
        @-@-@-@-@-@-@-----@-@--@-@-@-@-@\n\
        @-@-@-@-@-@-@-@@@-@-@--@-@-@-@-@\n\
        @-@-@-@-@-@-@-@-@-@-@--@-@-@-@-@\n\
        @-@-@-@-@-@-@-@-@-@-@--@-@-@-@-@\n\
        @-@-@-@-@-@-@-@@@-@-@--@-@-@-@-@\n\
        @-@-@-@-@-@-@-----@-@--@-@-@-@-@\n\
        @-@-@-@-@-@-@@@@@@@-@--@-@-@-@-@\n\
        @-@-@-@-@-@---------@--@-@-@-@-@\n\
        @-@-@-@-@-@@@@@@@@@@@@-@-@-@-@-@\n\
        @-@-@-@-@--------------@-@-@-@-@\n\
        @-@-@-@-@@@@@@@@@@@@@@@@-@-@-@-@\n\
        @-@-@-@------------------@-@-@-@\n\
        @-@-@-@@@@@@@@@@@@@@@@@@@@-@-@-@\n\
        @-@-@----------------------@-@-@\n\
        @-@-@@@@@@@@@@@@@@@@@@@@@@@@-@-@\n\
        @-@--------------------------@-@\n\
        @-@@@@@@@@@@@@@@@@@@@@@@@@@@@@-@\n\
        @------------------------------@\n\
        @@@@@@@@@@@@@@@@@@@@@@@@@@@@@@@@"
        .to_string();

    let mut source = make_sprite_asm(&sprite).iter().fold("".to_string(), |acc, l| acc + "\n" + l);
    source = "\
            JP start
            sprite_data:"
        .to_string()
        + &source;
    source += "
        start:
            LD V0, 0x10 // X
            LD V1, 0x00 // Y
            LD I, sprite_data
            LD V2, 0x00 // Sprite counter
            LD V3, 0x08 // I increment
        loop:
            DRW V0, V1, 8
            ADD V0, 0x08 // Inc X
            ADD V2, 0x01
            ADD I, V3 // Point to new sprite
            // If we've drawn all 16 sprites, end
            SNE V2, 0x10
            JP end
            // If we haven't drawn the last sprite on the row...
            SE V0, 0x30
            // Continue to draw this row
            JP loop
            // Otherwise we need to increment Y and reset X
            ADD V1, 0x08
            LD V0, 0x10
            JP loop
        end:
            JP end";

    let instrs = parse_asm_str(&source).unwrap();
    let rom = instrs_to_rom(&instrs);
    let mut c8 = make_system(&rom);
    let mut old_pc: u16 = 0xffff;

    while c8.pc != old_pc {
        old_pc = c8.pc;
        let ins = c8.fetch_and_decode().unwrap();
        c8.execute(&ins).unwrap();
    }

    let pad = "----------------";
    let expected = sprite.lines().map(|x| pad.to_owned() + x + pad).collect::<Vec<String>>().join("\n");

    assert_eq!(expected, c8.screen_to_str());
}
