//! The second pass and the assembler as a whole: from the text of a program
//! to the bytes of its image.
//!
//! The image holds two bytes for each instruction, low byte first, in address
//! order. It is made only when the whole table of labels is known, so a label
//! may be used before the line that binds it.

use crate::error::{AsmError, Failure, InvalidInstruction, SyntaxError};
use crate::instructions::{
    bytes_of, encode, encoding, find_rule, lemma_literal_word, rule_of, word_outcome, Rule,
};
use crate::listing::{
    label_of, lemma_label_address, listing_of, normalize_chars, run, Instruction, Program,
    SourceInstruction,
};
use crate::operand::{is_label_name, lemma_label_resolves, resolve};
use crate::symbols::SymbolTable;
use crate::text::{to_chars, to_string, to_upper_all, upper_seq};
use crate::tokenizer::{tokenize_chars, tokens_of};
use vstd::prelude::*;

verus! {

/// The word of one instruction in a program with the labels `symbols`.
///
/// An instruction without a mnemonic is a syntax error. The mnemonic is
/// looked up in upper case; one that the instruction set does not have is an
/// invalid instruction, which is reported in upper case.
pub open spec fn instruction_word(instr: Instruction, symbols: Map<Seq<char>, usize>) -> Result<
    Seq<u8>,
    Failure,
> {
    match tokens_of(instr.text) {
        None => Err(Failure::Syntax { line: instr.line }),
        Some(t) => match rule_of(upper_seq(t.mnemonic)) {
            None => Err(
                Failure::InvalidInstruction { mnemonic: upper_seq(t.mnemonic), line: instr.line },
            ),
            Some(rule) => encoding(rule, symbols, t.first, t.second, instr.line),
        },
    }
}

/// The image of the instructions `instrs`: their words in order. The first
/// instruction that fails decides the failure.
pub open spec fn image(instrs: Seq<Instruction>, symbols: Map<Seq<char>, usize>) -> Result<
    Seq<u8>,
    Failure,
>
    decreases instrs.len(),
{
    if instrs.len() == 0 {
        Ok(Seq::empty())
    } else {
        match image(instrs.drop_last(), symbols) {
            Err(e) => Err(e),
            Ok(bytes) => match instruction_word(instrs.last(), symbols) {
                Err(e) => Err(e),
                Ok(w) => Ok(bytes + w),
            },
        }
    }
}

/// The image of the program `text`. A failure of the first pass comes before
/// any failure of the second.
pub open spec fn assembled(text: Seq<char>) -> Result<Seq<u8>, Failure> {
    match listing_of(text) {
        Err(e) => Err(e),
        Ok(st) => image(st.instructions, st.symbols),
    }
}

/// What assembling yields, with the image taken as a sequence and the error by
/// what it stands for.
pub open spec fn image_outcome(r: Result<Vec<u8>, AsmError>) -> Result<Seq<u8>, Failure> {
    match r {
        Ok(bytes) => Ok(bytes@),
        Err(e) => Err(e@),
    }
}

/// A failure of an earlier instruction is the failure of the whole image.
pub proof fn lemma_image_failure_stays(
    instrs: Seq<Instruction>,
    symbols: Map<Seq<char>, usize>,
    k: int,
)
    requires
        0 <= k <= instrs.len(),
        image(instrs.take(k), symbols) is Err,
    ensures
        image(instrs, symbols) == image(instrs.take(k), symbols),
    decreases instrs.len(),
{
    if k == instrs.len() {
        assert(instrs.take(k) =~= instrs);
    } else {
        assert(instrs.drop_last().take(k) =~= instrs.take(k));
        lemma_image_failure_stays(instrs.drop_last(), symbols, k);
    }
}

/// The word of every instruction has two bytes.
pub proof fn lemma_instruction_word_len(instr: Instruction, symbols: Map<Seq<char>, usize>)
    ensures
        instruction_word(instr, symbols) matches Ok(w) ==> w.len() == 2,
{
}

/// An image holds the word of each instruction at twice its address, and
/// every word is made with the same, complete table of labels: an instruction
/// that uses a label is encoded alike before and after the line that binds
/// the label.
pub proof fn lemma_image_words(instrs: Seq<Instruction>, symbols: Map<Seq<char>, usize>)
    requires
        image(instrs, symbols) is Ok,
    ensures
        image(instrs, symbols)->Ok_0.len() == 2 * instrs.len(),
        forall|i: int|
            0 <= i < instrs.len() ==> #[trigger] instruction_word(instrs[i], symbols) == Ok::<
                Seq<u8>,
                Failure,
            >(image(instrs, symbols)->Ok_0.subrange(2 * i, 2 * i + 2)),
    decreases instrs.len(),
{
    if instrs.len() > 0 {
        let init = instrs.drop_last();
        let bytes = image(init, symbols)->Ok_0;
        let w = instruction_word(instrs.last(), symbols)->Ok_0;
        lemma_image_words(init, symbols);
        lemma_instruction_word_len(instrs.last(), symbols);
        let all = image(instrs, symbols)->Ok_0;
        assert forall|i: int| 0 <= i < instrs.len() implies #[trigger] instruction_word(
            instrs[i],
            symbols,
        ) == Ok::<Seq<u8>, Failure>(all.subrange(2 * i, 2 * i + 2)) by {
            if i < init.len() {
                assert(instrs[i] == init[i]);
                assert(all.subrange(2 * i, 2 * i + 2) =~= bytes.subrange(2 * i, 2 * i + 2));
            } else {
                assert(all.subrange(2 * i, 2 * i + 2) =~= w);
            }
        }
    }
}

/// An image fails where its first failing instruction fails: if the
/// instructions before address `k` have words and the one at `k` has none,
/// the failure of the image is the failure of that instruction.
pub proof fn lemma_image_first_failure(
    instrs: Seq<Instruction>,
    symbols: Map<Seq<char>, usize>,
    k: int,
)
    requires
        0 <= k < instrs.len(),
        forall|i: int| 0 <= i < k ==> #[trigger] instruction_word(instrs[i], symbols) is Ok,
        instruction_word(instrs[k], symbols) is Err,
    ensures
        image(instrs, symbols) is Err,
        image(instrs, symbols)->Err_0 == instruction_word(instrs[k], symbols)->Err_0,
{
    lemma_image_of_words(instrs.take(k), symbols);
    assert(instrs.take(k + 1).drop_last() =~= instrs.take(k));
    lemma_image_failure_stays(instrs, symbols, k + 1);
}

/// Instructions that all have words have an image.
pub proof fn lemma_image_of_words(instrs: Seq<Instruction>, symbols: Map<Seq<char>, usize>)
    requires
        forall|i: int|
            0 <= i < instrs.len() ==> #[trigger] instruction_word(instrs[i], symbols) is Ok,
    ensures
        image(instrs, symbols) is Ok,
    decreases instrs.len(),
{
    if instrs.len() > 0 {
        lemma_image_of_words(instrs.drop_last(), symbols);
    }
}

/// A label resolves to the address of the instruction that follows the line
/// which binds it, for every operand of the program, before that line and
/// after it.
///
/// Let line `k` of a program bind the name `label`, and let no later line
/// bind it again. An operand `label` has as its value the number of
/// instructions that stand before line `k`.
pub proof fn lemma_label_value(lines: Seq<Seq<char>>, k: int, label: Seq<char>)
    requires
        0 <= k < lines.len(),
        label_of(lines[k]) == Some(label),
        forall|j: int| k < j < lines.len() ==> label_of(#[trigger] lines[j]) != Some(label),
        run(lines) is Ok,
        is_label_name(label),
    ensures
        run(lines.take(k)) is Ok,
        resolve(label, run(lines)->Ok_0.symbols) == Ok::<usize, Failure>(
            run(lines.take(k))->Ok_0.instructions.len() as usize,
        ),
{
    lemma_label_address(lines, k, label);
    lemma_label_resolves(label, run(lines)->Ok_0.symbols);
}

/// A jump to a label goes to the instruction that the label stands for: the
/// word of the jump holds its opcode over the address of the label, modulo
/// the 512 words of a bank.
pub proof fn lemma_jump_to_label(
    opcode: u8,
    label: Seq<char>,
    symbols: Map<Seq<char>, usize>,
    line: nat,
)
    requires
        is_label_name(label),
        symbols.contains_key(label),
    ensures
        encoding(Rule::Jump { opcode }, symbols, Some(label), None, line) == Ok::<
            Seq<u8>,
            Failure,
        >(bytes_of((512 * opcode + symbols[label] % 512) as nat)),
{
    lemma_label_resolves(label, symbols);
}

/// An instruction that takes a literal keeps its opcode: if its mnemonic, in
/// either case, has a literal rule, the second byte of its word is the opcode
/// of the rule whatever the operand is, and the first byte is the value of
/// the operand modulo 256.
pub proof fn lemma_literal_instruction(
    instr: Instruction,
    symbols: Map<Seq<char>, usize>,
    opcode: u8,
)
    requires
        tokens_of(instr.text) matches Some(t) && rule_of(upper_seq(t.mnemonic)) == Some(
            Rule::Literal { opcode },
        ),
    ensures
        instruction_word(instr, symbols) matches Ok(w) ==> {
            &&& w.len() == 2
            &&& w[1] == opcode
            &&& tokens_of(instr.text)->Some_0.first matches Some(operand)
            &&& resolve(operand, symbols) matches Ok(value)
            &&& w[0] == value % 256
        },
{
    let t = tokens_of(instr.text)->Some_0;
    lemma_literal_word(opcode, symbols, t.first, t.second, instr.line);
}

/// Encodes one instruction of a program with the labels `labels`.
pub fn encode_instruction(instr: &SourceInstruction, labels: &SymbolTable) -> (r: Result<
    [u8; 2],
    AsmError,
>)
    ensures
        word_outcome(r) == instruction_word(instr@, labels@),
{
    let tokens = match tokenize_chars(&instr.text) {
        Some(t) => t,
        None => {
            return Err(AsmError::Syntax(SyntaxError { line: instr.line }));
        },
    };
    let mnemonic = to_upper_all(&tokens.mnemonic);
    let rule = match find_rule(&mnemonic) {
        Some(rule) => rule,
        None => {
            return Err(
                AsmError::InvalidInstruction(
                    InvalidInstruction(to_string(&mnemonic), instr.line),
                ),
            );
        },
    };
    encode(rule, labels, &tokens.first, &tokens.second, instr.line)
}

/// Runs the second pass: the image of `program`.
pub fn assemble_program(program: &Program) -> (r: Result<Vec<u8>, AsmError>)
    ensures
        image_outcome(r) == image(program@.instructions, program@.symbols),
{
    let mut output: Vec<u8> = Vec::new();
    let mut i: usize = 0;
    let ghost instrs = program@.instructions;
    let ghost symbols = program@.symbols;
    while i < program.instructions.len()
        invariant
            i <= program.instructions.len(),
            instrs == program@.instructions,
            symbols == program@.symbols,
            image(instrs.take(i as int), symbols) == Ok::<Seq<u8>, Failure>(output@),
        decreases program.instructions.len() - i,
    {
        assert(instrs.take(i + 1).drop_last() =~= instrs.take(i as int));
        match encode_instruction(&program.instructions[i], &program.symbols) {
            Ok(w) => {
                let ghost before = output@;
                output.push(w[0]);
                output.push(w[1]);
                assert(output@ =~= before + w@);
            },
            Err(e) => {
                proof {
                    lemma_image_failure_stays(instrs, symbols, i + 1);
                }
                return Err(e);
            },
        }
        i = i + 1;
    }
    assert(instrs.take(instrs.len() as int) =~= instrs);
    Ok(output)
}

/// Assembles the characters of a program.
pub fn assemble_chars(text: &Vec<char>) -> (r: Result<Vec<u8>, AsmError>)
    ensures
        image_outcome(r) == assembled(text@),
{
    let program = normalize_chars(text)?;
    assemble_program(&program)
}

/// Assembles the program `text` into its image.
pub fn assemble(text: &str) -> (r: Result<Vec<u8>, AsmError>)
    ensures
        image_outcome(r) == assembled(text@),
{
    let chars = to_chars(text);
    assemble_chars(&chars)
}

} // verus!
