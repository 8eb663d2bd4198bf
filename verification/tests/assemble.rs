use pic_asm::assembler::assemble;
use pic_asm::error::{
    AsmError, BadOpArgs, DoesnotFit, InvalidInstruction, InvalidNumber, SyntaxError,
    UndefinedLabel,
};
use pic_asm::listing::{normalize, Program};
use pic_asm::text::to_chars;

fn text_of(chars: &[char]) -> String {
    chars.iter().collect()
}

#[test]
fn assembles_a_small_program() {
    let source = "start: MOVLW 5\n       MOVWF 6\n       GOTO start\n";
    assert_eq!(assemble(source), Ok(vec![0x05, 0x0C, 0x26, 0x00, 0x00, 0x0A]));
}

#[test]
fn empty_text_gives_an_empty_image() {
    assert_eq!(assemble(""), Ok(vec![]));
    assert_eq!(assemble("\n\n   \n; only a comment\n"), Ok(vec![]));
}

#[test]
fn label_may_be_used_before_it_is_bound() {
    let source = "GOTO end\nNOP\nend: SLEEP\n";
    assert_eq!(assemble(source), Ok(vec![0x02, 0x0A, 0x00, 0x00, 0x03, 0x00]));
}

#[test]
fn label_resolves_alike_before_and_after_its_line() {
    let source = "GOTO here\nNOP\nhere: NOP\nGOTO here\n";
    let image = assemble(source).unwrap();
    assert_eq!(&image[0..2], &[0x02, 0x0A]);
    assert_eq!(&image[6..8], &[0x02, 0x0A]);
}

#[test]
fn label_on_a_line_of_its_own_names_the_next_instruction() {
    let source = "NOP\nloop:\n\n  ; nothing here\nCLRW\nGOTO loop";
    let program = normalize(source).unwrap();
    assert_eq!(program.symbols.get("loop"), Some(1));
    assert_eq!(text_of(&program.instructions[1].text), "CLRW");
    assert_eq!(program.instructions[1].line, 5);
    assert_eq!(assemble(source), Ok(vec![0x00, 0x00, 0x40, 0x00, 0x01, 0x0A]));
}

#[test]
fn later_binding_of_a_label_replaces_the_earlier_one() {
    let source = "a: NOP\nNOP\na: NOP\nGOTO a\n";
    let program = normalize(source).unwrap();
    assert_eq!(program.symbols.get("a"), Some(2));
    assert_eq!(assemble(source).unwrap()[6..8], [0x02, 0x0A]);
}

#[test]
fn labels_are_case_sensitive() {
    assert_eq!(
        assemble("Loop: NOP\nGOTO loop\n"),
        Err(AsmError::UndefinedLabel(UndefinedLabel("loop".to_string())))
    );
}

#[test]
fn mnemonics_are_not_case_sensitive() {
    assert_eq!(assemble("movlw 5"), assemble("MOVLW 5"));
    assert_eq!(assemble("MovLw 5"), Ok(vec![0x05, 0x0C]));
}

#[test]
fn comment_is_cut_off() {
    assert_eq!(assemble("MOVLW 1 ; MOVLW 2\n;NOP\n"), Ok(vec![0x01, 0x0C]));
    assert_eq!(assemble("a: NOP ; b: c: d\n"), Ok(vec![0x00, 0x00]));
}

#[test]
fn carriage_returns_end_lines_too() {
    assert_eq!(assemble("MOVLW 1\r\nMOVLW 2\r\n"), Ok(vec![0x01, 0x0C, 0x02, 0x0C]));
}

#[test]
fn unknown_mnemonic_is_an_invalid_instruction() {
    assert_eq!(
        assemble("FOOBAR 1"),
        Err(AsmError::InvalidInstruction(InvalidInstruction("FOOBAR".to_string(), 1)))
    );
    assert_eq!(
        assemble("NOP\n\nx: foobar 1\n"),
        Err(AsmError::InvalidInstruction(InvalidInstruction("FOOBAR".to_string(), 3)))
    );
}

#[test]
fn unknown_symbol_is_an_undefined_label() {
    assert_eq!(
        assemble("GOTO nowhere"),
        Err(AsmError::UndefinedLabel(UndefinedLabel("nowhere".to_string())))
    );
}

#[test]
fn two_colons_are_a_syntax_error() {
    assert_eq!(assemble("NOP\na: b: NOP\n"), Err(AsmError::Syntax(SyntaxError { line: 2 })));
    assert_eq!(normalize("::").err(), Some(AsmError::Syntax(SyntaxError { line: 1 })));
}

#[test]
fn instruction_without_a_letter_is_a_syntax_error() {
    assert_eq!(assemble("NOP\n  1234\n"), Err(AsmError::Syntax(SyntaxError { line: 2 })));
}

#[test]
fn wrong_number_of_operands_is_reported_before_the_operands() {
    assert_eq!(assemble("NOP\nMOVLW\n"), Err(AsmError::BadOpArgs(BadOpArgs(2))));
    assert_eq!(assemble("ADDWF nowhere"), Err(AsmError::BadOpArgs(BadOpArgs(1))));
    assert_eq!(assemble("NOP nowhere"), Err(AsmError::BadOpArgs(BadOpArgs(1))));
    assert_eq!(assemble("GOTO nowhere, 1"), Err(AsmError::BadOpArgs(BadOpArgs(1))));
}

#[test]
fn first_operand_fails_before_the_second() {
    assert_eq!(
        assemble("ADDWF nowhere, 99999999999999999999999999"),
        Err(AsmError::UndefinedLabel(UndefinedLabel("nowhere".to_string())))
    );
    assert_eq!(
        assemble("ADDWF 1, 99999999999999999999999999"),
        Err(AsmError::InvalidNumber(InvalidNumber("99999999999999999999999999".to_string())))
    );
}

#[test]
fn malformed_numbers_fail() {
    assert_eq!(
        assemble("MOVLW 12ab"),
        Err(AsmError::InvalidNumber(InvalidNumber("12ab".to_string())))
    );
    assert_eq!(
        assemble("MOVLW 0xG1"),
        Err(AsmError::InvalidNumber(InvalidNumber("0xG1".to_string())))
    );
    assert_eq!(assemble("NOP\nMOVLW 0q1"), Err(AsmError::Syntax(SyntaxError { line: 0 })));
}

#[test]
fn literal_is_cut_to_eight_bits() {
    assert_eq!(assemble("MOVLW 300"), Ok(vec![44, 0x0C]));
    assert_eq!(assemble("MOVLW 256"), Ok(vec![0, 0x0C]));
}

#[test]
fn bank_directive_fills_the_bank() {
    for n in [0usize, 1, 7, 511] {
        let mut source = "MOVLW 1\n".repeat(n);
        source.push_str("bank\n");
        let program = normalize(&source).unwrap();
        assert_eq!(program.instructions.len(), 512);
        assert_eq!(program.banks, 1);
        for i in n..512 {
            assert_eq!(program.instructions[i].line, 0);
            assert_eq!(text_of(&program.instructions[i].text), "NOP");
        }
        let image = assemble(&source).unwrap();
        assert_eq!(image.len(), 1024);
        assert!(image[2 * n..].iter().all(|b| *b == 0));
    }
}

#[test]
fn second_bank_starts_at_512() {
    let source = "NOP\nBANK\nhere: MOVLW 1\nBank\nthere: NOP\n";
    let program = normalize(source).unwrap();
    assert_eq!(program.symbols.get("here"), Some(512));
    assert_eq!(program.symbols.get("there"), Some(1024));
    assert_eq!(program.instructions.len(), 1025);
    assert_eq!(program.banks, 2);
}

#[test]
fn bank_after_a_label_is_an_instruction() {
    assert_eq!(
        assemble("x: BANK"),
        Err(AsmError::InvalidInstruction(InvalidInstruction("BANK".to_string(), 1)))
    );
}

#[test]
fn bank_holds_511_instructions_before_the_directive() {
    let source = "NOP\n".repeat(511);
    assert_eq!(assemble(&source).map(|image| image.len()), Ok(1022));
    let source = "NOP\n".repeat(512);
    assert_eq!(assemble(&source), Err(AsmError::DoesnotFit(DoesnotFit(512))));
    let source = "NOP\n".repeat(513);
    assert_eq!(assemble(&source), Err(AsmError::DoesnotFit(DoesnotFit(512))));
}

#[test]
fn overfull_second_bank_does_not_fit() {
    let mut source = String::from("BANK\n");
    source.push_str(&"NOP\n".repeat(511));
    assert!(assemble(&source).is_ok());
    source.push_str("last: NOP\n");
    assert_eq!(assemble(&source), Err(AsmError::DoesnotFit(DoesnotFit(513))));
}

#[test]
fn failure_of_the_first_pass_comes_first() {
    assert_eq!(assemble("FOOBAR\na:b:c\n"), Err(AsmError::Syntax(SyntaxError { line: 2 })));
}

#[test]
fn first_failing_instruction_decides() {
    assert_eq!(
        assemble("NOP\nGOTO a\nFOOBAR\n"),
        Err(AsmError::UndefinedLabel(UndefinedLabel("a".to_string())))
    );
}

#[test]
fn program_grows_line_by_line() {
    let program = Program::new();
    let program = program.add_line(1, &to_chars("  start: movlw 1 ; first")).unwrap();
    assert_eq!(program.instructions.len(), 1);
    assert_eq!(program.instructions[0].line, 1);
    assert_eq!(text_of(&program.instructions[0].text), "movlw 1");
    assert_eq!(program.symbols.get("start"), Some(0));
    let program = program.add_line(2, &to_chars("")).unwrap();
    assert_eq!(program.instructions.len(), 1);
    let program = program.add_line(3, &to_chars(" : ")).unwrap();
    assert_eq!(program.symbols.get(""), Some(1));
    let program = program.add_line(4, &to_chars("\tBaNk\t")).unwrap();
    assert_eq!(program.instructions.len(), 512);
    assert_eq!(program.banks, 1);
    assert_eq!(
        program.add_line(5, &to_chars("a:b:c")).err(),
        Some(AsmError::Syntax(SyntaxError { line: 5 }))
    );
}

#[test]
fn bank_with_a_label_before_it_is_a_label() {
    let program = normalize("BANK: NOP\nGOTO BANK\n").unwrap();
    assert_eq!(program.symbols.get("BANK"), Some(0));
    assert_eq!(program.instructions.len(), 2);
    assert_eq!(program.banks, 0);
    assert_eq!(assemble("BANK: NOP\nGOTO BANK\n"), Ok(vec![0x00, 0x00, 0x00, 0x0A]));
}
