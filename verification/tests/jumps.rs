use incarnation::{Assembler, PatchError, Register};

#[test]
fn near_jump_forward() {
    let mut assembler = Assembler::new();
    assembler.jz("end");
    assembler.ret();
    assembler.label("end");
    assembler.ret();
    assert_eq!(assembler.finish(), vec![0x0f, 0x84, 0x01, 0, 0, 0, 0xc3, 0xc3]);
}

#[test]
fn near_jump_backward() {
    let mut assembler = Assembler::new();
    assembler.label("top");
    assembler.ret();
    assembler.jnz("top");
    assert_eq!(assembler.finish(), vec![0xc3, 0x0f, 0x85, 0xf9, 0xff, 0xff, 0xff]);
}

#[test]
fn short_jump_forward() {
    let mut assembler = Assembler::new();
    assembler.jmp("x");
    assembler.syscall();
    assembler.label("x");
    assert_eq!(assembler.finish(), vec![0xeb, 0x02, 0x0f, 0x05]);
}

#[test]
fn short_jump_backward() {
    let mut assembler = Assembler::new();
    assembler.label("l");
    assembler.ret();
    assembler.je("l");
    assert_eq!(assembler.finish(), vec![0xc3, 0x74, 0xfd]);
}

#[test]
fn jump_to_the_next_instruction() {
    let mut assembler = Assembler::new();
    assembler.jmp("next");
    assembler.label("next");
    assert_eq!(assembler.finish(), vec![0xeb, 0x00]);
}

#[test]
fn patched_displacement_reaches_the_label() {
    let mut assembler = Assembler::new();
    assembler.mov_reg_reg(Register::RAX, Register::RBX);
    assembler.jz("far");
    assembler.append(vec![0x90; 300]);
    assembler.label("far");
    assembler.jnz("far");
    assembler.ret();
    let code = assembler.finish();
    // The first jump: its displacement starts behind the two opcode bytes.
    let site = 3 + 2;
    let displacement = i32::from_le_bytes([code[site], code[site + 1], code[site + 2], code[site + 3]]);
    let label = 3 + 6 + 300;
    assert_eq!((site + 4) as i64 + displacement as i64, label as i64);
    assert_eq!(displacement, 300);
    // The second jump goes back to the label that stands right before it.
    let site = label + 2;
    let displacement = i32::from_le_bytes([code[site], code[site + 1], code[site + 2], code[site + 3]]);
    assert_eq!((site + 4) as i64 + displacement as i64, label as i64);
    assert_eq!(displacement, -6);
}

#[test]
fn several_jumps_to_one_label() {
    let mut assembler = Assembler::new();
    assembler.jmp("end");
    assembler.je("end");
    assembler.jz("end");
    assembler.label("end");
    assert_eq!(
        assembler.finish(),
        vec![0xeb, 0x08, 0x74, 0x06, 0x0f, 0x84, 0, 0, 0, 0]
    );
}

#[test]
fn unknown_label_fails() {
    let mut assembler = Assembler::new();
    assembler.jz("nowhere");
    assembler.label("somewhere");
    assert_eq!(assembler.try_finish(), Err(PatchError::UnknownLabel));
}

#[test]
fn short_jump_out_of_range_fails() {
    let mut assembler = Assembler::new();
    assembler.jmp("far");
    assembler.append(vec![0x90; 128]);
    assembler.label("far");
    assert_eq!(assembler.try_finish(), Err(PatchError::OutOfRange));

    let mut assembler = Assembler::new();
    assembler.label("back");
    assembler.append(vec![0x90; 127]);
    assembler.je("back");
    assert_eq!(assembler.try_finish(), Err(PatchError::OutOfRange));
}

#[test]
fn short_jump_at_the_edge_of_its_range() {
    let mut assembler = Assembler::new();
    assembler.jmp("far");
    assembler.append(vec![0x90; 127]);
    assembler.label("far");
    let code = assembler.try_finish().unwrap();
    assert_eq!(code[..2], [0xeb, 0x7f]);

    let mut assembler = Assembler::new();
    assembler.label("back");
    assembler.append(vec![0x90; 126]);
    assembler.je("back");
    let code = assembler.try_finish().unwrap();
    assert_eq!(code[126..], [0x74, 0x80]);
}

#[test]
fn first_failure_is_reported() {
    let mut assembler = Assembler::new();
    assembler.jmp("far");
    assembler.jz("nowhere");
    assembler.append(vec![0x90; 200]);
    assembler.label("far");
    assert_eq!(assembler.try_finish(), Err(PatchError::OutOfRange));

    let mut assembler = Assembler::new();
    assembler.jz("nowhere");
    assembler.jmp("far");
    assembler.append(vec![0x90; 200]);
    assembler.label("far");
    assert_eq!(assembler.try_finish(), Err(PatchError::UnknownLabel));
}

#[test]
fn a_label_bound_again_stands_for_the_later_place() {
    let mut assembler = Assembler::new();
    assembler.label("here");
    assembler.ret();
    assembler.label("here");
    assembler.jmp("here");
    assert_eq!(assembler.finish(), vec![0xc3, 0xeb, 0xfe]);
}

#[test]
fn code_without_patching() {
    let mut assembler = Assembler::new();
    assembler.jz("end");
    assembler.label("end");
    assert_eq!(assembler.code(), vec![0x0f, 0x84, 0, 0, 0, 0]);
}

#[test]
fn call_of_a_label() {
    let mut assembler = Assembler::new();
    assembler.call_label("f");
    assembler.ret();
    assembler.label("f");
    assembler.ret();
    assembler.call_label("f");
    assert_eq!(
        assembler.finish(),
        vec![0xe8, 0x01, 0, 0, 0, 0xc3, 0xc3, 0xe8, 0xfa, 0xff, 0xff, 0xff]
    );
}
