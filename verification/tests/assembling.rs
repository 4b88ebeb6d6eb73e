use virtual_machine::assembler::{
    assemble, assemble_line, assert_length, handle_line, parse_numeric, parse_register, split_line,
    AsmErr,
};
use virtual_machine::op::Instruction;
use virtual_machine::register::Register;
use virtual_machine::vm::{parse_instruction, Halt, Machine};

/// What the standard library reads the token as, under the assembler's prefix rule.
fn expected_numeric(s: &str) -> Result<u8, AsmErr> {
    let (digits, radix) = match s.chars().next() {
        None => return Err(AsmErr::ParseErr),
        Some('$') => (&s[1..], 16),
        Some('%') => (&s[1..], 2),
        Some(_) => (s, 10),
    };
    u8::from_str_radix(digits, radix).map_err(|_| AsmErr::ParseErr)
}

#[test]
fn parse_numeric_reads_decimal_without_prefix() {
    assert_eq!(parse_numeric("0"), Ok(0));
    assert_eq!(parse_numeric("7"), Ok(7));
    assert_eq!(parse_numeric("42"), Ok(42));
    assert_eq!(parse_numeric("255"), Ok(255));
    assert_eq!(parse_numeric("007"), Ok(7));
    assert_eq!(parse_numeric("0000000000000000000000255"), Ok(255));
}

#[test]
fn parse_numeric_reads_hexadecimal_after_dollar() {
    assert_eq!(parse_numeric("$05"), Ok(5));
    assert_eq!(parse_numeric("$0"), Ok(0));
    assert_eq!(parse_numeric("$ff"), Ok(255));
    assert_eq!(parse_numeric("$FF"), Ok(255));
    assert_eq!(parse_numeric("$aB"), Ok(0xab));
    assert_eq!(parse_numeric("$1f"), Ok(31));
    assert_eq!(parse_numeric("$0000f0"), Ok(0xf0));
}

#[test]
fn parse_numeric_reads_binary_after_percent() {
    assert_eq!(parse_numeric("%0"), Ok(0));
    assert_eq!(parse_numeric("%1"), Ok(1));
    assert_eq!(parse_numeric("%101"), Ok(5));
    assert_eq!(parse_numeric("%11111111"), Ok(255));
    assert_eq!(parse_numeric("%011111111"), Ok(255));
}

#[test]
fn parse_numeric_accepts_one_plus_sign() {
    assert_eq!(parse_numeric("+5"), Ok(5));
    assert_eq!(parse_numeric("$+a"), Ok(10));
    assert_eq!(parse_numeric("%+11"), Ok(3));
    assert_eq!(parse_numeric("++5"), Err(AsmErr::ParseErr));
    assert_eq!(parse_numeric("+"), Err(AsmErr::ParseErr));
    assert_eq!(parse_numeric("$+"), Err(AsmErr::ParseErr));
    assert_eq!(parse_numeric("5+"), Err(AsmErr::ParseErr));
}

#[test]
fn parse_numeric_rejects_out_of_range() {
    assert_eq!(parse_numeric("256"), Err(AsmErr::ParseErr));
    assert_eq!(parse_numeric("1000"), Err(AsmErr::ParseErr));
    assert_eq!(parse_numeric("99999999999999999999999999"), Err(AsmErr::ParseErr));
    assert_eq!(parse_numeric("$100"), Err(AsmErr::ParseErr));
    assert_eq!(parse_numeric("$fff"), Err(AsmErr::ParseErr));
    assert_eq!(parse_numeric("%100000000"), Err(AsmErr::ParseErr));
}

#[test]
fn parse_numeric_rejects_malformed_tokens() {
    for s in [
        "", "$", "%", "-1", "-0", "$-1", "12a", "a", "$g", "$0x10", "0x10", "%2", "%12", "1 ", " 1",
        "1_0", "$$1", "%%1", "$%1", "١", "５", "$é", "1.0", ";", "A",
    ] {
        assert_eq!(parse_numeric(s), Err(AsmErr::ParseErr));
    }
}

#[test]
fn parse_numeric_agrees_with_the_standard_parser() {
    let alphabet = ['0', '1', '2', '9', 'a', 'f', 'F', 'g', 'z', 'Z', '+', '-', '$', '%', ' ', '_', 'é'];
    let mut tokens: Vec<String> = vec![String::new()];
    let mut last: Vec<String> = vec![String::new()];
    for _ in 0..4 {
        let mut next = Vec::new();
        for t in &last {
            for c in alphabet {
                let mut longer = t.clone();
                longer.push(c);
                next.push(longer);
            }
        }
        tokens.extend(next.iter().cloned());
        last = next;
    }
    for n in 0..=300u32 {
        tokens.push(format!("{}", n));
        tokens.push(format!("+{}", n));
        tokens.push(format!("${:x}", n));
        tokens.push(format!("${:X}", n));
        tokens.push(format!("$000{:x}", n));
        tokens.push(format!("%{:b}", n));
        tokens.push(format!("%+{:b}", n));
    }
    assert!(tokens.len() > 80_000);
    for t in &tokens {
        assert_eq!(parse_numeric(t), expected_numeric(t));
    }
}

#[test]
fn parse_register_knows_only_a() {
    assert_eq!(parse_register("A"), Ok(Register::A));
    for s in ["", "a", "B", "C", "M", "Sp", "SP", "Pc", "Bp", "Flags", "AA", " A", "A ", "0", "$0"] {
        assert_eq!(parse_register(s), Err(AsmErr::UnknownReg));
    }
}

#[test]
fn assert_length_wants_the_exact_count() {
    assert_eq!(assert_length(&[], 0), Ok(()));
    assert_eq!(assert_length(&["Nop"], 1), Ok(()));
    assert_eq!(assert_length(&["Push", "1"], 2), Ok(()));
    assert_eq!(assert_length(&["Push", "1"], 1), Err(AsmErr::LenErr));
    assert_eq!(assert_length(&["Push", "1"], 3), Err(AsmErr::LenErr));
    assert_eq!(assert_length(&[], 1), Err(AsmErr::LenErr));
}

#[test]
fn handle_line_reads_every_mnemonic() {
    assert_eq!(handle_line(&["Nop"]), Ok(Instruction::Nop));
    assert_eq!(handle_line(&["Push", "$05"]), Ok(Instruction::Push(5)));
    assert_eq!(handle_line(&["Push", "255"]), Ok(Instruction::Push(255)));
    assert_eq!(handle_line(&["PopRegister", "A"]), Ok(Instruction::PopRegister(Register::A)));
    assert_eq!(handle_line(&["PushRegister", "A"]), Ok(Instruction::PushRegister(Register::A)));
    assert_eq!(handle_line(&["JmpReg", "A"]), Ok(Instruction::JmpReg(Register::A)));
    assert_eq!(handle_line(&["JmpImm"]), Ok(Instruction::JmpImm));
    assert_eq!(handle_line(&["Signal", "$f0"]), Ok(Instruction::Signal(0xf0)));
    assert_eq!(handle_line(&["Signal", "%1010"]), Ok(Instruction::Signal(10)));
    assert_eq!(handle_line(&["AddStack"]), Ok(Instruction::AddStack));
    assert_eq!(
        handle_line(&["AddRegister", "A", "A"]),
        Ok(Instruction::AddRegister(Register::A, Register::A))
    );
}

#[test]
fn handle_line_rejects_unknown_mnemonics() {
    for parts in [&["nop"][..], &["Halt"], &["push", "1"], &[";"], &["$05"], &["A"], &["Jmp", "A"]] {
        assert_eq!(handle_line(parts), Err(AsmErr::UnknownOpCode));
    }
}

#[test]
fn handle_line_checks_the_token_count_exactly() {
    for parts in [
        &["Nop", "1"][..],
        &["AddStack", "A"],
        &["JmpImm", "$10"],
        &["Push"],
        &["Push", "1", "2"],
        &["Signal"],
        &["Signal", "1", "2"],
        &["PopRegister"],
        &["PopRegister", "A", "A"],
        &["PushRegister"],
        &["PushRegister", "A", "A"],
        &["JmpReg"],
        &["JmpReg", "A", "A"],
        &["AddRegister"],
        &["AddRegister", "A"],
        &["AddRegister", "A", "A", "A"],
    ] {
        assert_eq!(handle_line(parts), Err(AsmErr::LenErr));
    }
}

#[test]
fn handle_line_checks_the_count_before_the_operands() {
    assert_eq!(handle_line(&["Push", "bad", "bad"]), Err(AsmErr::LenErr));
    assert_eq!(handle_line(&["AddRegister", "B"]), Err(AsmErr::LenErr));
    assert_eq!(handle_line(&["Bogus", "1", "2", "3"]), Err(AsmErr::UnknownOpCode));
}

#[test]
fn handle_line_reports_bad_operands() {
    assert_eq!(handle_line(&["Push", "256"]), Err(AsmErr::ParseErr));
    assert_eq!(handle_line(&["Push", "A"]), Err(AsmErr::ParseErr));
    assert_eq!(handle_line(&["Signal", "$"]), Err(AsmErr::ParseErr));
    assert_eq!(handle_line(&["PopRegister", "B"]), Err(AsmErr::UnknownReg));
    assert_eq!(handle_line(&["PushRegister", "a"]), Err(AsmErr::UnknownReg));
    assert_eq!(handle_line(&["JmpReg", "Pc"]), Err(AsmErr::UnknownReg));
    assert_eq!(handle_line(&["AddRegister", "B", "A"]), Err(AsmErr::UnknownReg));
    assert_eq!(handle_line(&["AddRegister", "A", "B"]), Err(AsmErr::UnknownReg));
}

#[test]
fn split_line_drops_empty_pieces() {
    assert_eq!(split_line(""), Vec::<&str>::new());
    assert_eq!(split_line(" "), Vec::<&str>::new());
    assert_eq!(split_line("     "), Vec::<&str>::new());
    assert_eq!(split_line("Nop"), vec!["Nop"]);
    assert_eq!(split_line("Push $05"), vec!["Push", "$05"]);
    assert_eq!(split_line("  Push   $05  "), vec!["Push", "$05"]);
    assert_eq!(split_line("AddRegister A  A"), vec!["AddRegister", "A", "A"]);
    assert_eq!(split_line("a b c d e"), vec!["a", "b", "c", "d", "e"]);
    assert_eq!(split_line(" x"), vec!["x"]);
    assert_eq!(split_line("x "), vec!["x"]);
}

#[test]
fn split_line_splits_at_spaces_only() {
    assert_eq!(split_line("Push\t$05"), vec!["Push\t$05"]);
    assert_eq!(split_line("Push\u{a0}1 é ✓✓ z"), vec!["Push\u{a0}1", "é", "✓✓", "z"]);
    assert_eq!(split_line("Nop\r"), vec!["Nop\r"]);
    assert_eq!(split_line("a;b ;c"), vec!["a;b", ";c"]);
}

#[test]
fn split_line_agrees_with_the_standard_split() {
    let alphabet = [' ', 'a', 'B', '$', 'é'];
    let mut lines: Vec<String> = vec![String::new()];
    let mut last: Vec<String> = vec![String::new()];
    for _ in 0..6 {
        let mut next = Vec::new();
        for t in &last {
            for c in alphabet {
                let mut longer = t.clone();
                longer.push(c);
                next.push(longer);
            }
        }
        lines.extend(next.iter().cloned());
        last = next;
    }
    assert!(lines.len() > 19_000);
    for line in &lines {
        let expected: Vec<&str> = line.split(' ').filter(|x| !x.is_empty()).collect();
        assert_eq!(split_line(line), expected);
    }
}

#[test]
fn assemble_line_appends_low_byte_first() {
    let mut out = vec![0xaa];
    assert_eq!(assemble_line("Push $05", &mut out), Ok(()));
    assert_eq!(out, vec![0xaa, 0x01, 0x05]);
    assert_eq!(assemble_line("  Signal   $f0 ", &mut out), Ok(()));
    assert_eq!(out, vec![0xaa, 0x01, 0x05, 0x0f, 0xf0]);
    assert_eq!(assemble_line("AddRegister A A", &mut out), Ok(()));
    assert_eq!(out, vec![0xaa, 0x01, 0x05, 0x0f, 0xf0, 0x11, 0x00]);
}

#[test]
fn assemble_line_skips_blank_lines_and_comments() {
    let mut out = Vec::new();
    for line in ["", " ", "      ", ";", "; a comment", ";Push 1", ";;;"] {
        assert_eq!(assemble_line(line, &mut out), Ok(()));
        assert_eq!(out, Vec::<u8>::new());
    }
}

#[test]
fn assemble_line_takes_a_semicolon_as_comment_only_at_the_start() {
    let mut out = vec![1, 2];
    assert_eq!(assemble_line(" ; indented", &mut out), Err(AsmErr::UnknownOpCode));
    assert_eq!(assemble_line("Nop ; trailing", &mut out), Err(AsmErr::LenErr));
    assert_eq!(assemble_line("Push 1;", &mut out), Err(AsmErr::ParseErr));
    assert_eq!(out, vec![1, 2]);
}

#[test]
fn assemble_line_that_fails_appends_nothing() {
    let mut out = vec![7];
    assert_eq!(assemble_line("Bogus", &mut out), Err(AsmErr::UnknownOpCode));
    assert_eq!(assemble_line("Push", &mut out), Err(AsmErr::LenErr));
    assert_eq!(assemble_line("Push 256", &mut out), Err(AsmErr::ParseErr));
    assert_eq!(assemble_line("PopRegister B", &mut out), Err(AsmErr::UnknownReg));
    assert_eq!(assemble_line("Nop\r", &mut out), Err(AsmErr::UnknownOpCode));
    assert_eq!(out, vec![7]);
}

#[test]
fn assemble_end_to_end_image() {
    let source = ["Push $05", "Push $03", "AddStack", "PopRegister A"];
    assert_eq!(
        assemble(&source),
        Ok(vec![0x01, 0x05, 0x01, 0x03, 0x10, 0x00, 0x02, 0x00])
    );
}

#[test]
fn assemble_of_nothing_is_an_empty_image() {
    assert_eq!(assemble(&[]), Ok(Vec::new()));
    assert_eq!(assemble(&["", "; only a comment", "   "]), Ok(Vec::new()));
}

#[test]
fn assemble_every_mnemonic() {
    let source = [
        "; every instruction once",
        "Nop",
        "Push 200",
        "",
        "PopRegister A",
        "PushRegister A",
        "   JmpReg A",
        "JmpImm",
        "Signal %11110000",
        "AddStack",
        "AddRegister A A",
    ];
    assert_eq!(
        assemble(&source),
        Ok(vec![
            0x00, 0x00, 0x01, 200, 0x02, 0x00, 0x03, 0x00, 0x07, 0x00, 0x08, 0x00, 0x0f, 0xf0, 0x10,
            0x00, 0x11, 0x00,
        ])
    );
}

#[test]
fn assemble_aborts_on_the_first_malformed_line() {
    assert_eq!(assemble(&["Push 1", "Push 256", "Bogus"]), Err(AsmErr::ParseErr));
    assert_eq!(assemble(&["Push 1", "Bogus", "Push 256"]), Err(AsmErr::UnknownOpCode));
    assert_eq!(assemble(&["Nop", "Nop", "AddStack A"]), Err(AsmErr::LenErr));
    assert_eq!(assemble(&["PopRegister M"]), Err(AsmErr::UnknownReg));
    assert_eq!(assemble(&["; fine", "", "Push"]), Err(AsmErr::LenErr));
}

#[test]
fn assembled_words_decode_to_the_instructions_written() {
    let lines = [
        ("Nop", Instruction::Nop),
        ("Push 0", Instruction::Push(0)),
        ("Push $ff", Instruction::Push(255)),
        ("PopRegister A", Instruction::PopRegister(Register::A)),
        ("PushRegister A", Instruction::PushRegister(Register::A)),
        ("JmpReg A", Instruction::JmpReg(Register::A)),
        ("JmpImm", Instruction::JmpImm),
        ("Signal $aa", Instruction::Signal(0xaa)),
        ("AddStack", Instruction::AddStack),
        ("AddRegister A A", Instruction::AddRegister(Register::A, Register::A)),
    ];
    for (line, instruction) in lines {
        let mut out = Vec::new();
        assert_eq!(assemble_line(line, &mut out), Ok(()));
        assert_eq!(out.len(), 2);
        let word = (out[0] as u16) | ((out[1] as u16) << 8);
        assert_eq!(parse_instruction(word), Ok(instruction));
    }
    for n in 0..=255u8 {
        let mut out = Vec::new();
        assert_eq!(assemble_line(&format!("Push {}", n), &mut out), Ok(()));
        let word = (out[0] as u16) | ((out[1] as u16) << 8);
        assert_eq!(parse_instruction(word), Ok(Instruction::Push(n)));
        let mut out = Vec::new();
        assert_eq!(assemble_line(&format!("Signal ${:x}", n), &mut out), Ok(()));
        let word = (out[0] as u16) | ((out[1] as u16) << 8);
        assert_eq!(parse_instruction(word), Ok(Instruction::Signal(n)));
    }
}

#[test]
fn assembled_program_runs_on_the_machine() {
    let image = assemble(&["Push $05", "Push $03", "AddStack", "PopRegister A", "Signal $f0"]);
    let image = match image {
        Ok(image) => image,
        Err(e) => panic!("assembly failed: {:?}", e),
    };
    assert_eq!(image, vec![0x01, 0x05, 0x01, 0x03, 0x10, 0x00, 0x02, 0x00, 0x0f, 0xf0]);
    let mut vm: Machine<Halt> = Machine::new();
    vm.set_register(Register::Sp, 0x1000);
    vm.define_handler(0xf0, Halt);
    assert!(vm.load(&image, 0));
    for _ in 0..4 {
        assert_eq!(vm.step(), Ok(()));
    }
    assert_eq!(vm.get_register(Register::A), 8);
    assert_eq!(vm.get_register(Register::Pc), 8);
    assert!(!vm.halt);
    assert_eq!(vm.step(), Ok(()));
    assert!(vm.halt);
}
