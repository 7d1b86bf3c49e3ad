use rchip8::instr::{AddrOp, ByteOp, DrawSpriteInstr, Instr, InstrFlags, NoArgOp, PairOp, RegOp, UndefInstr, WordInstr};
use rchip8::system::{make_system, Chip8System, Fault};
use rchip8::{arg_nnn, arg_x, arg_x_kk, arg_x_y, arg_x_y_n, no_args};

#[test]
fn every_decodable_opcode_encodes_back() {
    let mut decoded = 0;
    for op in 0..=0xFFFF_u16 {
        if let Some(i) = Instr::decode(op) {
            assert_eq!(op, i.get_opcode());
            decoded += 1;
        }
    }
    // 11 full families, 2 + 9 register pairs, 2 + 9 single registers
    assert_eq!(11 * 0x1000 + 11 * 0x100 + 11 * 0x10, decoded);
}

#[test]
fn builders_pack_fields() {
    assert_eq!(0x00E0, no_args(0x00E0));
    assert_eq!(0x2ABC, arg_nnn(0x2FFF, 0xABC));
    assert_eq!(0x7A42, arg_x_kk(0x7000, 0xA, 0x42));
    assert_eq!(0x8AB5, arg_x_y(0x8005, 0xA, 0xB));
    assert_eq!(0xD12F, arg_x_y_n(0xD000, 1, 2, 0xF));
    assert_eq!(0xF329, arg_x(0xF029, 3));
}

#[test]
fn word_and_undef_render() {
    assert_eq!(".word 0x0234", Instr::Word(WordInstr::create(0x234)).repr());
    assert_eq!(0xBEEF, Instr::Word(WordInstr::new(0xBEEF)).get_opcode());
    let u = Instr::Undef(UndefInstr::new(0x1234, "not here".to_string()));
    assert_eq!("UNDEF not here", u.repr());
    assert_eq!("UNDEF", u.get_mnemonic());
    assert_eq!("not here", u.get_formatted_args());
    assert_eq!(DrawSpriteInstr { x: 0xA, y: 0xB, n: 0xC }, DrawSpriteInstr::new(0xDABC));
}

#[test]
fn flags_by_instruction() {
    assert_eq!(InstrFlags::Screen, Instr::plain(NoArgOp::Cls).get_flags());
    assert_eq!(InstrFlags::Screen, Instr::Draw(DrawSpriteInstr::create(0, 0, 1)).get_flags());
    assert_eq!(InstrFlags::Keys, Instr::reg(RegOp::Skp, 0).get_flags());
    assert_eq!(InstrFlags::WaitKey, Instr::reg(RegOp::WaitKey, 0).get_flags());
    assert_eq!(InstrFlags::Sound, Instr::reg(RegOp::SetSound, 0).get_flags());
    assert_eq!(InstrFlags::NoEffect, Instr::plain(NoArgOp::Ret).get_flags());
}

#[test]
fn symbols_resolve_once() {
    let i = Instr::symbol(AddrOp::Call, "f".to_string());
    assert_eq!(Some("f".to_string()), i.get_symbol());
    let r = i.resolve_symbol(0x456);
    assert_eq!(None, r.get_symbol());
    assert_eq!(0x2456, r.get_opcode());
    assert_eq!("CALL 0x456", r.repr());
}

fn machine() -> Chip8System {
    let rom: Vec<u8> = vec![];
    make_system(&rom)
}

#[test]
fn add_sets_carry_exactly_on_overflow() {
    let mut c8 = machine();
    c8.v_regs[1] = 0xF0;
    c8.v_regs[2] = 0x10;
    c8.execute(&Instr::pair(PairOp::Add, 1, 2)).unwrap();
    assert_eq!(0x00, c8.v_regs[1]);
    assert_eq!(1, c8.v_regs[15]);
    c8.v_regs[1] = 0xEF;
    c8.execute(&Instr::pair(PairOp::Add, 1, 2)).unwrap();
    assert_eq!(0xFF, c8.v_regs[1]);
    assert_eq!(0, c8.v_regs[15]);
}

#[test]
fn sub_and_subn_flags_follow_comparison() {
    let mut c8 = machine();
    c8.v_regs[1] = 5;
    c8.v_regs[2] = 7;
    c8.execute(&Instr::pair(PairOp::Sub, 1, 2)).unwrap();
    assert_eq!(254, c8.v_regs[1]);
    assert_eq!(0, c8.v_regs[15]);
    c8.v_regs[1] = 5;
    c8.execute(&Instr::pair(PairOp::Subn, 1, 2)).unwrap();
    assert_eq!(2, c8.v_regs[1]);
    assert_eq!(1, c8.v_regs[15]);
    // Equal operands: no flag either way
    c8.v_regs[1] = 7;
    c8.execute(&Instr::pair(PairOp::Sub, 1, 2)).unwrap();
    assert_eq!(0, c8.v_regs[1]);
    assert_eq!(0, c8.v_regs[15]);
}

#[test]
fn shifts_use_only_vx() {
    let mut c8 = machine();
    c8.v_regs[3] = 0b1000_0001;
    c8.v_regs[4] = 0xFF;
    c8.execute(&Instr::pair(PairOp::Shr, 3, 4)).unwrap();
    assert_eq!(0b0100_0000, c8.v_regs[3]);
    assert_eq!(1, c8.v_regs[15]);
    c8.v_regs[3] = 0b1000_0001;
    c8.execute(&Instr::pair(PairOp::Shl, 3, 4)).unwrap();
    assert_eq!(0b0000_0010, c8.v_regs[3]);
    assert_eq!(1, c8.v_regs[15]);
}

#[test]
fn draw_wraps_and_reports_collision() {
    let mut c8 = machine();
    // A one-row sprite 0b1100_0001 at I
    c8.memory[0x300] = 0b1100_0001;
    c8.i_reg = 0x300;
    c8.v_regs[0] = 62;
    c8.v_regs[1] = 31;
    c8.execute(&Instr::plain(NoArgOp::Cls)).unwrap();
    c8.execute(&Instr::Draw(DrawSpriteInstr::create(0, 1, 1))).unwrap();
    assert_eq!(0, c8.v_regs[15]);
    let lit: Vec<usize> = (0..2048).filter(|p| c8.screen[*p]).collect();
    // Columns 62 and 63 of row 31, then column 5 wrapped around
    assert_eq!(vec![31 * 64 + 5, 31 * 64 + 62, 31 * 64 + 63], lit);
    c8.execute(&Instr::Draw(DrawSpriteInstr::create(0, 1, 1))).unwrap();
    assert_eq!(1, c8.v_regs[15]);
    assert!(c8.screen.iter().all(|p| !*p));
}

#[test]
fn draw_takes_coordinates_before_setting_vf() {
    let mut c8 = machine();
    c8.memory[0x300] = 0x80;
    c8.i_reg = 0x300;
    c8.v_regs[15] = 10;
    c8.execute(&Instr::Draw(DrawSpriteInstr::create(15, 15, 1))).unwrap();
    let lit: Vec<usize> = (0..2048).filter(|p| c8.screen[*p]).collect();
    assert_eq!(vec![10 * 64 + 10], lit);
    assert_eq!(0, c8.v_regs[15]);
    // Drawn again at the same place, the pixel collides
    c8.v_regs[15] = 10;
    c8.execute(&Instr::Draw(DrawSpriteInstr::create(15, 15, 1))).unwrap();
    assert_eq!(1, c8.v_regs[15]);
    assert!(c8.screen.iter().all(|p| !*p));
}

#[test]
fn clear_then_draw_leaves_only_sprite() {
    let mut c8 = machine();
    for p in c8.screen.iter_mut() {
        *p = true;
    }
    // The glyph of 0 from the font
    c8.v_regs[0] = 0;
    c8.execute(&Instr::reg(RegOp::Digit, 0)).unwrap();
    c8.execute(&Instr::plain(NoArgOp::Cls)).unwrap();
    c8.execute(&Instr::Draw(DrawSpriteInstr::create(1, 1, 5))).unwrap();
    assert_eq!(0, c8.v_regs[15]);
    let text = c8.screen_to_str();
    let rows: Vec<&str> = text.lines().collect();
    assert_eq!(32, rows.len());
    assert_eq!("@@@@----", &rows[0][..8]);
    assert_eq!("@--@----", &rows[1][..8]);
    assert_eq!("@@@@----", &rows[4][..8]);
    assert_eq!(4 + 2 + 2 + 2 + 4, text.chars().filter(|c| *c == '@').count());
}

#[test]
fn bcd_and_register_blocks() {
    let mut c8 = machine();
    c8.i_reg = 0x400;
    c8.v_regs[2] = 137;
    c8.execute(&Instr::reg(RegOp::Bcd, 2)).unwrap();
    assert_eq!(vec![1, 3, 7], c8.memory[0x400..0x403].to_vec());
    c8.execute(&Instr::reg(RegOp::Load, 2)).unwrap();
    assert_eq!(vec![1, 3, 7], c8.v_regs[0..3].to_vec());
    c8.v_regs[0] = 9;
    c8.execute(&Instr::reg(RegOp::Store, 0)).unwrap();
    assert_eq!(9, c8.memory[0x400]);
    assert_eq!(3, c8.memory[0x401]);
}

#[test]
fn rnd_masks_random_byte() {
    let mut c8 = machine();
    for _ in 0..50 {
        c8.execute(&Instr::byte(ByteOp::Rnd, 4, 0x0F)).unwrap();
        assert!(c8.v_regs[4] <= 0x0F);
    }
    c8.execute_with(&Instr::byte(ByteOp::Rnd, 4, 0x3C), 0xF0).unwrap();
    assert_eq!(0x30, c8.v_regs[4]);
}

#[test]
fn calls_jumps_and_skips() {
    let mut c8 = machine();
    c8.execute(&Instr::address(AddrOp::Call, 0x300)).unwrap();
    assert_eq!(0x300, c8.pc);
    assert_eq!(vec![0x200], c8.stack);
    c8.execute(&Instr::plain(NoArgOp::Ret)).unwrap();
    assert_eq!(0x200, c8.pc);
    c8.v_regs[0] = 0x10;
    c8.execute(&Instr::address(AddrOp::JpV0, 0x300)).unwrap();
    assert_eq!(0x310, c8.pc);
    c8.execute(&Instr::byte(ByteOp::Se, 0, 0x10)).unwrap();
    assert_eq!(0x312, c8.pc);
    c8.execute(&Instr::byte(ByteOp::Sne, 0, 0x10)).unwrap();
    assert_eq!(0x312, c8.pc);
}

#[test]
fn keys_and_waits() {
    let mut c8 = machine();
    let mut keys = [false; 16];
    keys[7] = true;
    c8.update_keys(keys);
    assert_eq!(Ok(true), c8.get_keystate(7));
    assert_eq!(Ok(false), c8.get_keystate(6));
    assert_eq!(Err(Fault::KeyOutOfRange(16)), c8.get_keystate(16));
    c8.v_regs[1] = 7;
    c8.execute(&Instr::reg(RegOp::Skp, 1)).unwrap();
    assert_eq!(0x202, c8.pc);
    c8.execute(&Instr::reg(RegOp::Sknp, 1)).unwrap();
    assert_eq!(0x202, c8.pc);
    c8.pressed_key = 9;
    c8.execute(&Instr::reg(RegOp::WaitKey, 5)).unwrap();
    assert_eq!(9, c8.v_regs[5]);
}

#[test]
fn timers_tick_on_fetch_counts() {
    // JP 0x200 forever
    let rom: Vec<u8> = vec![0x12, 0x00];
    let mut c8 = make_system(&rom);
    c8.v_regs[0] = 3;
    c8.execute(&Instr::reg(RegOp::SetDelay, 0)).unwrap();
    c8.execute(&Instr::reg(RegOp::SetSound, 0)).unwrap();
    for _ in 0..100 {
        let i = c8.fetch_and_decode().unwrap();
        c8.execute(&i).unwrap();
    }
    assert_eq!(3, c8.delay_timer);
    let i = c8.fetch_and_decode().unwrap();
    c8.execute(&i).unwrap();
    assert_eq!(2, c8.delay_timer);
    assert_eq!(3, c8.sound_timer);
    c8.execute(&Instr::reg(RegOp::GetDelay, 6)).unwrap();
    assert_eq!(2, c8.v_regs[6]);
}

#[test]
fn fetch_faults() {
    let rom: Vec<u8> = vec![0x0F, 0xFF, 0x50, 0x01];
    let mut c8 = make_system(&rom);
    assert_eq!(Err(Fault::Break(0x200)), c8.fetch_and_decode().map(|_| ()));
    assert_eq!(0x202, c8.pc);
    assert_eq!(Err(Fault::UnknownOpcode(0x5001, 0x202)), c8.fetch_and_decode().map(|_| ()));
    c8.pc = 0xFFFF;
    assert_eq!(Err(Fault::PcOutOfBounds(0xFFFF)), c8.fetch_and_decode().map(|_| ()));
    let e = c8.get_opcode_obj(0x800F).unwrap_err();
    assert_eq!(0x800F, e.opcode);
}

#[test]
fn word_cannot_execute() {
    let mut c8 = machine();
    assert_eq!(Err(Fault::WordExecuted), c8.execute(&Instr::Word(WordInstr::create(0x1234))));
}

#[test]
fn fresh_machine_layout() {
    let rom: Vec<u8> = vec![0xAB, 0xCD];
    let c8 = make_system(&rom);
    assert_eq!(0x200, c8.pc);
    assert_eq!(0x10000, c8.memory.len());
    assert_eq!(vec![0xF0, 0x90, 0x90, 0x90, 0xF0], c8.memory[0..5].to_vec());
    assert_eq!(vec![0xF0, 0x80, 0xF0, 0x80, 0x80], c8.memory[75..80].to_vec());
    assert_eq!(0, c8.memory[80]);
    assert_eq!(vec![0xAB, 0xCD, 0x00], c8.memory[0x200..0x203].to_vec());
    assert!(c8.screen.iter().all(|p| !*p));
    let text = c8.screen_to_str();
    assert_eq!(32 * 65 - 1, text.len());
}

#[test]
fn bounds_check_reports_i() {
    let mut c8 = machine();
    c8.i_reg = 0xFFF0;
    assert_eq!(Ok(0xFFF0), c8.bounds_check_i(16));
    assert_eq!(Err(Fault::MemoryOutOfBounds(0xFFF0, 17)), c8.bounds_check_i(17));
}

#[test]
fn reset_keeps_memory() {
    let mut c8 = machine();
    c8.memory[0x300] = 7;
    c8.v_regs[3] = 1;
    c8.stack.push(0x222);
    c8.pc = 0x400;
    c8.reset_regs();
    assert_eq!(7, c8.memory[0x300]);
    assert_eq!(0, c8.v_regs[3]);
    assert!(c8.stack.is_empty());
    assert_eq!(0x200, c8.pc);
}
