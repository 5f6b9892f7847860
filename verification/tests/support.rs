use incarnation::amd64::driver::{assemble_one, perform, Resolved};
use incarnation::amd64::{Error, Mnemonic};
use incarnation::riscv::encoding::{encode_b, encode_i, encode_j, encode_r, encode_s, encode_u};
use incarnation::table::Table;
use incarnation::text::{chars_of, same_chars, same_text, to_ascii_lower, to_ascii_lowercase};
use incarnation::token::without_comments;
use incarnation::tokenizer::Tokenizer;
use incarnation::unit::{EntryKind, Unit};
use incarnation::{
    Assembler, Immediate, Index, Instruction, Operand, PatchError, Register, StringInterner,
    Symbol, Token,
};

#[test]
fn table_later_entry_wins() {
    let mut table: Table<i32> = Table::new();
    assert_eq!(table.get(&"a".to_string()), None);
    table.insert("a".to_string(), 1);
    table.insert("b".to_string(), 2);
    assert_eq!(table.get(&"a".to_string()), Some(1));
    assert_eq!(table.get(&"b".to_string()), Some(2));
    table.insert("a".to_string(), 3);
    assert_eq!(table.get(&"a".to_string()), Some(3));
    assert_eq!(table.get(&"b".to_string()), Some(2));
    assert_eq!(table.get(&"".to_string()), None);
}

#[test]
fn text_helpers() {
    assert_eq!(chars_of("aé\u{1F600}"), vec!['a', 'é', '\u{1F600}']);
    assert_eq!(chars_of(""), Vec::<char>::new());
    assert_eq!(to_ascii_lower('A'), 'a');
    assert_eq!(to_ascii_lower('Z'), 'z');
    assert_eq!(to_ascii_lower('a'), 'a');
    assert_eq!(to_ascii_lower('@'), '@');
    assert_eq!(to_ascii_lower('['), '[');
    assert_eq!(to_ascii_lower('É'), 'É');
    assert_eq!(to_ascii_lowercase("RaX-É9"), vec!['r', 'a', 'x', '-', 'É', '9']);
    assert!(same_chars(&vec!['a', 'b'], &vec!['a', 'b']));
    assert!(!same_chars(&vec!['a', 'b'], &vec!['a', 'c']));
    assert!(!same_chars(&vec!['a'], &vec!['a', 'b']));
    assert!(same_chars(&vec![], &vec![]));
    assert!(same_text("mov", "mov"));
    assert!(!same_text("mov", "Mov"));
    assert!(!same_text("mov", "mo"));
}

#[test]
fn comments_are_filtered() {
    let input = "; one\n(a #| two |# b) ; three";
    let tokens = Tokenizer::tokenize(input).unwrap();
    assert_eq!(tokens.len(), 7);
    let kept = without_comments(&tokens);
    assert_eq!(kept.len(), 4);
    assert!(kept.iter().all(|t| !t.commentp()));
    assert_eq!(kept[1].as_str(input), "a");
    assert_eq!(kept[2].as_str(input), "b");
}

#[test]
fn unit_patches_every_kind_of_jump() {
    let mut unit = Unit::new();
    unit.jump(vec![0xeb], "end", 1);
    unit.jump(vec![0xe9], "end", 4);
    unit.append(vec![0x90]);
    unit.jump_word("end", EntryKind::Branch { funct3: 0, rs1: 10, rs2: 11 });
    unit.jump_word("end", EntryKind::Jal { rd: 1 });
    unit.label("end");
    assert_eq!(unit.len(), 16);
    assert_eq!(unit.add_constant(vec![1]), 0);
    assert_eq!(
        unit.finish(),
        vec![
            0xeb, 0x0e, 0xe9, 0x09, 0, 0, 0, 0x90, 0x63, 0x04, 0xb5, 0x00, 0xef, 0x00, 0x40, 0x00,
        ]
    );
    let mut unit = Unit::new();
    unit.label("odd");
    unit.append(vec![0x90]);
    unit.jump_word("odd", EntryKind::Jal { rd: 0 });
    assert_eq!(unit.try_finish(), Err(PatchError::OutOfRange));
    let mut unit = Unit::new();
    unit.jump_word("nowhere", EntryKind::Jal { rd: 0 });
    assert_eq!(unit.code(), vec![0x6f, 0, 0, 0]);
}

#[test]
fn riscv_formats() {
    assert_eq!(encode_r(0x20, 12, 11, 0, 10, 0x33), 0x40c58533);
    assert_eq!(encode_r(0x7f, 31, 31, 7, 31, 0x7f), 0xffff_ffff);
    assert_eq!(encode_i(-1, 0, 0, 0, 0x13), 0xfff0_0013);
    assert_eq!(encode_i(2047, 31, 7, 31, 0x13), 0x7fff_ff93);
    assert_eq!(encode_s(-1, 0, 0, 0, 0x23), 0xfe00_0fa3);
    assert_eq!(encode_s(8, 10, 2, 2, 0x23), 0x00a12423);
    assert_eq!(encode_b(8, 11, 10, 0, 0x63), 0x00b50463);
    assert_eq!(encode_b(-4096, 0, 0, 0, 0x63), 0x8000_0063);
    assert_eq!(encode_b(4094, 0, 0, 0, 0x63), 0x7e00_0fe3);
    assert_eq!(encode_u(0xfffff, 10, 0x37), 0xffff_f537);
    assert_eq!(encode_j(16, 1, 0x6f), 0x010000ef);
    assert_eq!(encode_j(-1048576, 0, 0x6f), 0x8000_006f);
    assert_eq!(encode_j(1048574, 0, 0x6f), 0x7fff_f06f);
}

#[test]
fn driver_step_by_step() {
    let mut interner = StringInterner::new();
    let mov = interner.get_symbol("mov".to_string());
    let rax = interner.get_symbol("rax".to_string());
    let bad = interner.get_symbol("rzx".to_string());
    let here = interner.get_symbol("here:".to_string());
    let mut assembler = Assembler::new();
    let good = Instruction::new(mov, vec![Operand::Register(rax), Operand::Constant(Immediate::I32(1))]);
    assert_eq!(assemble_one(&mut assembler, &good, &interner), Ok(()));
    assert_eq!(assembler.len(), 7);
    let wrong = Instruction::new(mov, vec![Operand::Register(bad), Operand::Register(rax)]);
    assert_eq!(assemble_one(&mut assembler, &wrong, &interner), Err(Error::Register));
    assert_eq!(assembler.len(), 7);
    assert_eq!(assemble_one(&mut assembler, &Instruction::Label(here), &interner), Ok(()));
    assert_eq!(
        perform(&mut assembler, Mnemonic::Jmp, &vec![Resolved::Label("here".to_string())]),
        Ok(())
    );
    assert_eq!(
        perform(&mut assembler, Mnemonic::Mov, &vec![Resolved::Register(Register::AL)]),
        Err(Error::Operands)
    );
    assert_eq!(
        perform(
            &mut assembler,
            Mnemonic::Mov,
            &vec![Resolved::Register(Register::AL), Resolved::Register(Register::AX)]
        ),
        Err(Error::Width)
    );
    assert_eq!(assembler.len(), 9);
    assert_eq!(
        assembler.finish(),
        vec![0x48, 0xc7, 0xc0, 0x01, 0, 0, 0, 0xeb, 0xfe]
    );
}

#[test]
fn symbols_of_escaped_names() {
    let mut interner = StringInterner::new();
    let input = r"a\nb|c d|\\e\|";
    let token = Token::Symbol(Index::new(1, 14));
    assert_eq!(token.as_str(input), input);
    let symbol = token.as_symbol(input, &mut interner);
    assert_eq!(symbol, Symbol::new(0));
    assert_eq!(interner.get_value(symbol), Some("a\nbc d\\e|".to_string()));
    let input = r"tab\there plain |bars| end\";
    let tab = Token::Symbol(Index::new(1, 9)).as_symbol(input, &mut interner);
    let plain = Token::Symbol(Index::new(11, 15)).as_symbol(input, &mut interner);
    let bars = Token::Symbol(Index::new(17, 22)).as_symbol(input, &mut interner);
    let end = Token::Symbol(Index::new(24, 27)).as_symbol(input, &mut interner);
    assert_eq!(interner.get_value(tab), Some("tab\there".to_string()));
    assert_eq!(interner.get_value(plain), Some("plain".to_string()));
    assert_eq!(interner.get_value(bars), Some("bars".to_string()));
    assert_eq!(interner.get_value(end), Some("end".to_string()));
    assert_eq!(Token::Symbol(Index::new(17, 22)).as_symbol(input, &mut interner), bars);
    assert_eq!(Token::Symbol(Index::new(18, 21)).as_symbol(input, &mut interner), bars);
    assert_eq!(interner.len(), 5);
    let nothing = Token::Symbol(Index::new(1, 0)).as_symbol("", &mut interner);
    assert_eq!(interner.get_value(nothing), Some(String::new()));
}
