//! The assembler: from mnemonic source lines to the machine's program image.
//!
//! A line is a mnemonic followed by its operands, separated by spaces; runs
//! of spaces count as one. An empty line, a line of spaces, and a line that
//! starts with `;` contribute nothing. Every other line contributes one
//! instruction word, low byte first. The first malformed line fails the whole
//! assembly.

use crate::op::{Instruction, OpCode};
use crate::register::Register;
use crate::text::{chars_of, str_eq};
use vstd::prelude::*;
use vstd::string::*;

verus! {

/// Why assembling failed.
#[derive(Debug, Clone, Copy, PartialEq, Eq, Structural)]
pub enum AsmErr {
    /// A numeric operand is malformed or does not fit in a byte.
    ParseErr,
    /// A register operand is not a register name the assembler knows.
    UnknownReg,
    /// The first token of a line is no mnemonic.
    UnknownOpCode,
    /// A line has too few or too many tokens for its mnemonic.
    LenErr,
    /// Reserved.
    NoArg,
    /// The source file could not be opened.
    UnknownFile,
    /// The program image could not be written.
    WriteErr,
}

/// The value of `c` as a digit: `0`-`9` count 0 to 9, and the letters, in
/// either case, count from 10 on. Other characters are no digits.
pub open spec fn digit_value(c: char) -> Option<nat> {
    if '0' as u32 <= c as u32 <= '9' as u32 {
        Some((c as u32 - '0' as u32) as nat)
    } else if 'a' as u32 <= c as u32 <= 'z' as u32 {
        Some((c as u32 - 'a' as u32 + 10) as nat)
    } else if 'A' as u32 <= c as u32 <= 'Z' as u32 {
        Some((c as u32 - 'A' as u32 + 10) as nat)
    } else {
        None
    }
}

/// Whether `c` is a digit of the given radix.
pub open spec fn is_digit(c: char, radix: nat) -> bool {
    digit_value(c) matches Some(d) && d < radix
}

/// Whether every character of `s` is a digit of the given radix.
pub open spec fn all_digits(s: Seq<char>, radix: nat) -> bool {
    forall|i: int| 0 <= i < s.len() ==> is_digit(#[trigger] s[i], radix)
}

/// The number that the digits `s` write in the given radix, most significant
/// digit first.
pub open spec fn digits_value(s: Seq<char>, radix: nat) -> nat
    decreases s.len(),
{
    if s.len() == 0 {
        0
    } else {
        digits_value(s.drop_last(), radix) * radix + digit_value(s.last()).unwrap_or(0)
    }
}

/// Reads an unsigned byte in the given radix: one optional `+`, then at
/// least one digit and nothing but digits, writing a number up to 255.
pub open spec fn byte_in_radix(s: Seq<char>, radix: nat) -> Result<u8, AsmErr> {
    let body = if s.len() > 0 && s[0] == '+' {
        s.skip(1)
    } else {
        s
    };
    if body.len() > 0 && all_digits(body, radix) && digits_value(body, radix) <= 255 {
        Ok(digits_value(body, radix) as u8)
    } else {
        Err(AsmErr::ParseErr)
    }
}

/// Reads a numeric operand: hexadecimal after `$`, binary after `%`, decimal
/// without a prefix.
pub open spec fn numeric(s: Seq<char>) -> Result<u8, AsmErr> {
    if s.len() == 0 {
        Err(AsmErr::ParseErr)
    } else if s[0] == '$' {
        byte_in_radix(s.skip(1), 16)
    } else if s[0] == '%' {
        byte_in_radix(s.skip(1), 2)
    } else {
        byte_in_radix(s, 10)
    }
}

/// Reads a register operand. `A` is the one register the assembler names.
pub open spec fn register(s: Seq<char>) -> Result<Register, AsmErr> {
    if s == "A"@ {
        Ok(Register::A)
    } else {
        Err(AsmErr::UnknownReg)
    }
}

/// The number of tokens on a line with the given mnemonic: the mnemonic and
/// its operands.
pub open spec fn token_count(op: OpCode) -> nat {
    match op {
        OpCode::Nop => 1,
        OpCode::AddStack => 1,
        OpCode::JmpImm => 1,
        OpCode::Push => 2,
        OpCode::Signal => 2,
        OpCode::PopRegister => 2,
        OpCode::PushRegister => 2,
        OpCode::JmpReg => 2,
        OpCode::AddRegister => 3,
    }
}

/// The instruction that the tokens of a line write.
///
/// The mnemonic is looked up first, then the number of tokens is checked,
/// then the operands are read from left to right; the first of these to fail
/// gives the error.
pub open spec fn instruction(parts: Seq<Seq<char>>) -> Result<Instruction, AsmErr>
    recommends
        parts.len() > 0,
{
    match OpCode::of_mnemonic(parts[0]) {
        None => Err(AsmErr::UnknownOpCode),
        Some(op) => if parts.len() != token_count(op) {
            Err(AsmErr::LenErr)
        } else {
            match op {
                OpCode::Nop => Ok(Instruction::Nop),
                OpCode::AddStack => Ok(Instruction::AddStack),
                OpCode::JmpImm => Ok(Instruction::JmpImm),
                OpCode::Push => match numeric(parts[1]) {
                    Ok(n) => Ok(Instruction::Push(n)),
                    Err(e) => Err(e),
                },
                OpCode::Signal => match numeric(parts[1]) {
                    Ok(n) => Ok(Instruction::Signal(n)),
                    Err(e) => Err(e),
                },
                OpCode::PopRegister => match register(parts[1]) {
                    Ok(r) => Ok(Instruction::PopRegister(r)),
                    Err(e) => Err(e),
                },
                OpCode::PushRegister => match register(parts[1]) {
                    Ok(r) => Ok(Instruction::PushRegister(r)),
                    Err(e) => Err(e),
                },
                OpCode::JmpReg => match register(parts[1]) {
                    Ok(r) => Ok(Instruction::JmpReg(r)),
                    Err(e) => Err(e),
                },
                OpCode::AddRegister => match register(parts[1]) {
                    Ok(r1) => match register(parts[2]) {
                        Ok(r2) => Ok(Instruction::AddRegister(r1, r2)),
                        Err(e) => Err(e),
                    },
                    Err(e) => Err(e),
                },
            }
        },
    }
}

/// The pieces of `s` between its spaces. Two spaces in a row, or a space at
/// either end, leave an empty piece; there is always at least one piece.
pub open spec fn fields(s: Seq<char>) -> Seq<Seq<char>>
    decreases s.len(),
{
    if s.len() == 0 {
        seq![Seq::empty()]
    } else {
        let before = fields(s.drop_last());
        if s.last() == ' ' {
            before.push(Seq::empty())
        } else {
            before.drop_last().push(before.last().push(s.last()))
        }
    }
}

/// The test that keeps the pieces with something in them.
pub open spec fn not_empty() -> spec_fn(Seq<char>) -> bool {
    |f: Seq<char>| f.len() > 0
}

/// The tokens of a line: its pieces between spaces, the empty ones dropped.
pub open spec fn tokens(s: Seq<char>) -> Seq<Seq<char>> {
    fields(s).filter(not_empty())
}

/// The characters of each string of `parts`.
pub open spec fn views(parts: Seq<&str>) -> Seq<Seq<char>> {
    parts.map_values(|p: &str| p@)
}

/// The bytes that a line adds to the program image: none for an empty line,
/// a comment or a line of spaces, and otherwise the word of the line's
/// instruction, low byte first.
pub open spec fn line_bytes(line: Seq<char>) -> Result<Seq<u8>, AsmErr> {
    if line.len() == 0 || line[0] == ';' || tokens(line).len() == 0 {
        Ok(Seq::empty())
    } else {
        match instruction(tokens(line)) {
            Ok(i) => Ok(seq![(i.word() % 256) as u8, (i.word() / 256) as u8]),
            Err(e) => Err(e),
        }
    }
}

/// The program image of a source: the bytes of its lines in order, or the
/// error of the first line that has one.
pub open spec fn image(lines: Seq<Seq<char>>) -> Result<Seq<u8>, AsmErr>
    decreases lines.len(),
{
    if lines.len() == 0 {
        Ok(Seq::empty())
    } else {
        match image(lines.drop_last()) {
            Err(e) => Err(e),
            Ok(bytes) => match line_bytes(lines.last()) {
                Err(e) => Err(e),
                Ok(more) => Ok(bytes + more),
            },
        }
    }
}

/// What the assembler writes, the engine reads back: a line that assembles
/// gives the two bytes of a word, low byte first, and that word decodes to
/// the very instruction the line wrote, with the same operation and the same
/// operands.
pub proof fn lemma_line_roundtrip(line: Seq<char>)
    requires
        line_bytes(line) matches Ok(bytes) && bytes.len() > 0,
    ensures
        ({
            let bytes = line_bytes(line).unwrap();
            &&& bytes.len() == 2
            &&& instruction(tokens(line)) matches Ok(i) && crate::vm::decode(
                (bytes[0] + 256 * bytes[1]) as u16,
            ) == Ok::<Instruction, crate::vm::MachineErr>(i)
        }),
{
    let i = instruction(tokens(line)).unwrap();
    crate::vm::lemma_decode_encode(i);
}

/// A line fails to assemble in one of four ways only: an unknown mnemonic, a
/// wrong number of tokens, a bad number, or an unknown register. The
/// assembler itself never reports `NoArg`, `UnknownFile` or `WriteErr`.
pub proof fn lemma_line_errors(line: Seq<char>)
    ensures
        line_bytes(line) matches Err(e) ==> e == AsmErr::UnknownOpCode || e == AsmErr::LenErr || e
            == AsmErr::ParseErr || e == AsmErr::UnknownReg,
{
}

/// No piece between spaces holds a space.
proof fn lemma_fields_hold_no_space(s: Seq<char>)
    ensures
        fields(s).len() > 0,
        forall|i: int| 0 <= i < fields(s).len() ==> !(#[trigger] fields(s)[i]).contains(' '),
    decreases s.len(),
{
    if s.len() > 0 {
        let before = fields(s.drop_last());
        lemma_fields_hold_no_space(s.drop_last());
        if s.last() != ' ' {
            let grown = before.last().push(s.last());
            assert forall|j: int| 0 <= j < grown.len() implies grown[j] != ' ' by {
                if j < before.last().len() {
                    assert(before.last().contains(grown[j]));
                }
            }
        }
    }
}

/// Every token of a line has at least one character and no space in it.
pub proof fn lemma_tokens_are_words(line: Seq<char>)
    ensures
        forall|i: int|
            0 <= i < tokens(line).len() ==> (#[trigger] tokens(line)[i]).len() > 0 && !tokens(
                line,
            )[i].contains(' '),
{
    let all = fields(line);
    assert forall|i: int| 0 <= i < tokens(line).len() implies (#[trigger] tokens(line)[i]).len() > 0
        && !tokens(line)[i].contains(' ') by {
        let t = tokens(line)[i];
        all.lemma_filter_pred(not_empty(), i);
        assert(tokens(line).contains(t));
        all.lemma_filter_contains_rev(not_empty(), t);
        lemma_fields_hold_no_space(line);
    }
}

/// A prefix of a digit string writes a number no larger than the whole.
proof fn lemma_digits_value_prefix(s: Seq<char>, k: int, radix: nat)
    requires
        0 <= k <= s.len(),
        radix >= 1,
    ensures
        digits_value(s.take(k), radix) <= digits_value(s, radix),
    decreases s.len(),
{
    if k == s.len() {
        assert(s.take(k) =~= s);
    } else {
        lemma_digits_value_prefix(s.drop_last(), k, radix);
        assert(s.drop_last().take(k) =~= s.take(k));
        let v = digits_value(s.drop_last(), radix);
        assert(v * radix >= v) by (nonlinear_arith)
            requires
                radix >= 1,
                v >= 0,
        ;
    }
}

/// The value of `c` as a digit of the given radix, if it is one.
fn parse_digit(c: char, radix: u32) -> (d: Option<u32>)
    requires
        2 <= radix <= 36,
    ensures
        d is Some <==> is_digit(c, radix as nat),
        d matches Some(v) ==> digit_value(c) == Some(v as nat) && v < radix,
{
    let x: u32 = c as u32;
    let v: u32 = if '0' as u32 <= x && x <= '9' as u32 {
        x - '0' as u32
    } else if 'a' as u32 <= x && x <= 'z' as u32 {
        x - 'a' as u32 + 10
    } else if 'A' as u32 <= x && x <= 'Z' as u32 {
        x - 'A' as u32 + 10
    } else {
        return None;
    };
    if v < radix {
        Some(v)
    } else {
        None
    }
}

/// Reads the characters from `start` on as an unsigned byte in the given
/// radix.
fn parse_byte(chars: &Vec<char>, start: usize, radix: u32) -> (r: Result<u8, AsmErr>)
    requires
        start <= chars@.len(),
        2 <= radix <= 36,
    ensures
        r == byte_in_radix(chars@.skip(start as int), radix as nat),
{
    let ghost s = chars@.skip(start as int);
    let n = chars.len();
    let first = if start < n && chars[start] == '+' {
        start + 1
    } else {
        start
    };
    let ghost body = chars@.skip(first as int);
    if first == n {
        return Err(AsmErr::ParseErr);
    }
    let mut acc: u32 = 0;
    let mut i: usize = first;
    while i < n
        invariant
            first <= i <= n,
            n == chars@.len(),
            start <= n,
            s == chars@.skip(start as int),
            body == chars@.skip(first as int),
            body == if s.len() > 0 && s[0] == '+' {
                s.skip(1)
            } else {
                s
            },
            2 <= radix <= 36,
            acc <= 255,
            all_digits(body.take(i - first), radix as nat),
            acc == digits_value(body.take(i - first), radix as nat),
        decreases n - i,
    {
        let ghost seen = body.take(i - first);
        let ghost next = body.take(i - first + 1);
        assert(next.drop_last() =~= seen);
        let d = match parse_digit(chars[i], radix) {
            Some(d) => d,
            None => {
                assert(!is_digit(body[i - first], radix as nat));
                return Err(AsmErr::ParseErr);
            },
        };
        assert(acc * radix <= 255 * 36) by (nonlinear_arith)
            requires
                acc <= 255,
                radix <= 36,
        ;
        let value = acc * radix + d;
        if value > 255 {
            proof {
                lemma_digits_value_prefix(body, i - first + 1, radix as nat);
            }
            return Err(AsmErr::ParseErr);
        }
        acc = value;
        i += 1;
    }
    assert(body.take(n - first) =~= body);
    Ok(acc as u8)
}

/// Reads a numeric operand.
///
/// A token that starts with `$` is hexadecimal, one that starts with `%` is
/// binary, any other is decimal. After the prefix come one optional `+` and
/// then digits only, at least one. The token fails with `ParseErr` if it is
/// malformed or writes a number above 255.
pub fn parse_numeric(s: &str) -> (r: Result<u8, AsmErr>)
    ensures
        r == numeric(s@),
{
    let chars = chars_of(s);
    if chars.len() == 0 {
        return Err(AsmErr::ParseErr);
    }
    let fst = chars[0];
    if fst == '$' {
        parse_byte(&chars, 1, 16)
    } else if fst == '%' {
        parse_byte(&chars, 1, 2)
    } else {
        assert(chars@.skip(0) =~= chars@);
        parse_byte(&chars, 0, 10)
    }
}

/// Reads a register operand. Only the token `A` names a register; every
/// other token fails with `UnknownReg`.
pub fn parse_register(s: &str) -> (r: Result<Register, AsmErr>)
    ensures
        r == register(s@),
{
    if str_eq(s, "A") {
        Ok(Register::A)
    } else {
        Err(AsmErr::UnknownReg)
    }
}

/// Checks that a line has exactly `n` tokens; fails with `LenErr` if not.
pub fn assert_length(parts: &[&str], n: usize) -> (r: Result<(), AsmErr>)
    ensures
        r == if parts@.len() == n {
            Ok::<(), AsmErr>(())
        } else {
            Err(AsmErr::LenErr)
        },
{
    if parts.len() == n {
        Ok(())
    } else {
        Err(AsmErr::LenErr)
    }
}

/// Reads the instruction that the tokens of a line write.
///
/// Fails with `UnknownOpCode` if the first token is no mnemonic, with
/// `LenErr` if the number of tokens is not the one the mnemonic takes, and
/// with the error of the first operand that cannot be read.
pub fn handle_line(parts: &[&str]) -> (r: Result<Instruction, AsmErr>)
    requires
        parts@.len() > 0,
    ensures
        r == instruction(views(parts@)),
{
    let opcode = match OpCode::from_string(parts[0]) {
        Some(opcode) => opcode,
        None => {
            return Err(AsmErr::UnknownOpCode);
        },
    };
    match opcode {
        OpCode::Nop => match assert_length(parts, 1) {
            Ok(()) => Ok(Instruction::Nop),
            Err(e) => Err(e),
        },
        OpCode::Push => {
            if let Err(e) = assert_length(parts, 2) {
                return Err(e);
            }
            match parse_numeric(parts[1]) {
                Ok(n) => Ok(Instruction::Push(n)),
                Err(e) => Err(e),
            }
        },
        OpCode::AddStack => match assert_length(parts, 1) {
            Ok(()) => Ok(Instruction::AddStack),
            Err(e) => Err(e),
        },
        OpCode::AddRegister => {
            if let Err(e) = assert_length(parts, 3) {
                return Err(e);
            }
            let r1 = match parse_register(parts[1]) {
                Ok(r) => r,
                Err(e) => {
                    return Err(e);
                },
            };
            match parse_register(parts[2]) {
                Ok(r2) => Ok(Instruction::AddRegister(r1, r2)),
                Err(e) => Err(e),
            }
        },
        OpCode::PopRegister => {
            if let Err(e) = assert_length(parts, 2) {
                return Err(e);
            }
            match parse_register(parts[1]) {
                Ok(r) => Ok(Instruction::PopRegister(r)),
                Err(e) => Err(e),
            }
        },
        OpCode::PushRegister => {
            if let Err(e) = assert_length(parts, 2) {
                return Err(e);
            }
            match parse_register(parts[1]) {
                Ok(r) => Ok(Instruction::PushRegister(r)),
                Err(e) => Err(e),
            }
        },
        OpCode::JmpReg => {
            if let Err(e) = assert_length(parts, 2) {
                return Err(e);
            }
            match parse_register(parts[1]) {
                Ok(r) => Ok(Instruction::JmpReg(r)),
                Err(e) => Err(e),
            }
        },
        OpCode::JmpImm => match assert_length(parts, 1) {
            Ok(()) => Ok(Instruction::JmpImm),
            Err(e) => Err(e),
        },
        OpCode::Signal => {
            if let Err(e) = assert_length(parts, 2) {
                return Err(e);
            }
            match parse_numeric(parts[1]) {
                Ok(n) => Ok(Instruction::Signal(n)),
                Err(e) => Err(e),
            }
        },
    }
}

/// Splits a line into its tokens: the pieces between spaces, without the
/// empty ones that a run of spaces or a space at either end leaves.
pub fn split_line<'a>(line: &'a str) -> (parts: Vec<&'a str>)
    ensures
        views(parts@) == tokens(line@),
{
    let chars = chars_of(line);
    let n = chars.len();
    let mut parts: Vec<&'a str> = Vec::new();
    let ghost mut closed: Seq<Seq<char>> = Seq::empty();
    let mut start: usize = 0;
    let mut i: usize = 0;
    proof {
        reveal(Seq::filter);
        assert(line@.subrange(0, 0) =~= Seq::empty());
    }
    while i < n
        invariant
            start <= i <= n,
            n == line@.len(),
            chars@ == line@,
            fields(line@.take(i as int)) == closed.push(line@.subrange(start as int, i as int)),
            views(parts@) == closed.filter(not_empty()),
        decreases n - i,
    {
        let ghost pending = line@.subrange(start as int, i as int);
        let ghost seen = line@.take(i as int);
        let ghost next = line@.take(i + 1);
        proof {
            assert(next.drop_last() =~= seen);
            assert(closed.push(pending).drop_last() =~= closed);
        }
        if chars[i] == ' ' {
            if start < i {
                parts.push(line.substring_char(start, i));
            }
            proof {
                reveal(Seq::filter);
                closed = closed.push(pending);
                assert(line@.subrange(i + 1, i + 1) =~= Seq::empty());
            }
            start = i + 1;
        } else {
            assert(line@.subrange(start as int, i + 1) =~= pending.push(line@[i as int]));
        }
        i += 1;
    }
    proof {
        reveal(Seq::filter);
        assert(line@.take(n as int) =~= line@);
        assert(closed.push(line@.subrange(start as int, n as int)).drop_last() =~= closed);
    }
    if start < n {
        parts.push(line.substring_char(start, n));
    }
    parts
}

/// Assembles one source line onto the end of `output`.
///
/// An empty line, a comment and a line of spaces add nothing. Any other line
/// adds the two bytes of its instruction word, low byte first, or fails and
/// adds nothing.
pub fn assemble_line(line: &str, output: &mut Vec<u8>) -> (r: Result<(), AsmErr>)
    ensures
        match line_bytes(line@) {
            Ok(bytes) => r == Ok::<(), AsmErr>(()) && final(output)@ == old(output)@ + bytes,
            Err(e) => r == Err::<(), AsmErr>(e) && final(output)@ == old(output)@,
        },
{
    if line.is_empty() {
        return Ok(());
    }
    if line.get_char(0) == ';' {
        return Ok(());
    }
    let parts = split_line(line);
    if parts.len() == 0 {
        return Ok(());
    }
    let instruction = match handle_line(parts.as_slice()) {
        Ok(instruction) => instruction,
        Err(e) => {
            return Err(e);
        },
    };
    let raw_instruction: u16 = instruction.encode_u16();
    let low: u8 = (raw_instruction & 0xff) as u8;
    let high: u8 = (raw_instruction >> 8) as u8;
    assert(low == raw_instruction % 256 && high == raw_instruction / 256) by (bit_vector)
        requires
            low == (raw_instruction & 0xff) as u8,
            high == (raw_instruction >> 8) as u8,
    ;
    output.push(low);
    output.push(high);
    Ok(())
}

/// Assembles a source, given as its lines, into a program image.
///
/// The image holds the instruction words of the lines in order, each low
/// byte first. The first line that cannot be assembled fails the whole run
/// with its error, and no image is returned.
pub fn assemble(lines: &[&str]) -> (r: Result<Vec<u8>, AsmErr>)
    ensures
        match image(views(lines@)) {
            Ok(bytes) => r matches Ok(v) && v@ == bytes,
            Err(e) => r matches Err(err) && err == e,
        },
{
    let mut output: Vec<u8> = Vec::new();
    let n = lines.len();
    let mut i: usize = 0;
    while i < n
        invariant
            i <= n,
            n == lines@.len(),
            image(views(lines@).take(i as int)) == Ok::<Seq<u8>, AsmErr>(output@),
        decreases n - i,
    {
        let ghost seen = views(lines@).take(i as int);
        let ghost next = views(lines@).take(i + 1);
        proof {
            assert(next.drop_last() =~= seen);
        }
        if let Err(e) = assemble_line(lines[i], &mut output) {
            proof {
                lemma_image_fails(views(lines@), i + 1);
            }
            return Err(e);
        }
        i += 1;
    }
    assert(views(lines@).take(n as int) =~= views(lines@));
    Ok(output)
}

/// Once the first `k` lines fail to assemble, the whole source fails with
/// the same error.
proof fn lemma_image_fails(lines: Seq<Seq<char>>, k: int)
    requires
        0 <= k <= lines.len(),
        image(lines.take(k)) is Err,
    ensures
        image(lines) == image(lines.take(k)),
    decreases lines.len(),
{
    if k == lines.len() {
        assert(lines.take(k) =~= lines);
    } else {
        assert(lines.drop_last().take(k) =~= lines.take(k));
        lemma_image_fails(lines.drop_last(), k);
    }
}

} // verus!
