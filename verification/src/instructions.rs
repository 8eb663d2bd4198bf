//! The instruction set: which mnemonics there are, how many operands each
//! takes, and how the operands are packed into a word.
//!
//! A word has 12 bits: the opcode at the top and the operands below it. It is
//! written as two bytes, low byte first. Operands are never held against the
//! width of their field: an operand that is too wide is taken modulo the size
//! of the field.

use crate::error::{AsmError, BadOpArgs, Failure};
use crate::operand::{resolve, resolve_token};
use crate::symbols::SymbolTable;
use crate::text::{opt_view, spells, to_chars};
use vstd::prelude::*;

verus! {

/// How an instruction is encoded: the shape of its operands and its opcode.
#[derive(Clone, Copy, Debug, PartialEq, Eq)]
pub enum Rule {
    /// A file register `f` of 5 bits and a direction `d` of 1 bit under an
    /// opcode of 6 bits: `64 * opcode + 32 * d + f`.
    FileDirection { opcode: u8 },
    /// A file register `f` of 5 bits under an opcode of 7 bits:
    /// `32 * opcode + f`.
    File { opcode: u8 },
    /// A port `f` of 3 bits and no opcode.
    Port,
    /// No operand: the word is `word`.
    Fixed { word: u16 },
    /// A file register `f` of 5 bits and a bit number `b` of 3 bits under an
    /// opcode of 4 bits: `256 * opcode + 32 * b + f`.
    FileBit { opcode: u8 },
    /// A literal `k` of 8 bits under an opcode of 4 bits: `256 * opcode + k`.
    Literal { opcode: u8 },
    /// A target address `k` of 9 bits under an opcode of 3 bits:
    /// `512 * opcode + k`.
    Jump { opcode: u8 },
    /// A constant of 12 bits and no opcode.
    Data,
}

impl Rule {
    /// The number of operands that an instruction of this rule takes.
    pub open spec fn arity(self) -> nat {
        match self {
            Rule::FileDirection { .. } => 2,
            Rule::File { .. } => 1,
            Rule::Port => 1,
            Rule::Fixed { .. } => 0,
            Rule::FileBit { .. } => 2,
            Rule::Literal { .. } => 1,
            Rule::Jump { .. } => 1,
            Rule::Data => 1,
        }
    }

    /// The number of operands that an instruction of this rule takes.
    pub fn operands(self) -> (n: usize)
        ensures
            n == self.arity(),
    {
        match self {
            Rule::FileDirection { .. } => 2,
            Rule::File { .. } => 1,
            Rule::Port => 1,
            Rule::Fixed { .. } => 0,
            Rule::FileBit { .. } => 2,
            Rule::Literal { .. } => 1,
            Rule::Jump { .. } => 1,
            Rule::Data => 1,
        }
    }
}

/// The rule of a mnemonic, which is written in upper case.
pub open spec fn rule_of(mnemonic: Seq<char>) -> Option<Rule> {
    if mnemonic == "ADDWF"@ {
        Some(Rule::FileDirection { opcode: 0b000111 })
    } else if mnemonic == "ANDWF"@ {
        Some(Rule::FileDirection { opcode: 0b000101 })
    } else if mnemonic == "COMF"@ {
        Some(Rule::FileDirection { opcode: 0b001001 })
    } else if mnemonic == "DECF"@ {
        Some(Rule::FileDirection { opcode: 0b000011 })
    } else if mnemonic == "DECFSZ"@ {
        Some(Rule::FileDirection { opcode: 0b001011 })
    } else if mnemonic == "INCF"@ {
        Some(Rule::FileDirection { opcode: 0b001010 })
    } else if mnemonic == "INCFSZ"@ {
        Some(Rule::FileDirection { opcode: 0b001111 })
    } else if mnemonic == "IORWF"@ {
        Some(Rule::FileDirection { opcode: 0b000100 })
    } else if mnemonic == "MOVF"@ {
        Some(Rule::FileDirection { opcode: 0b001000 })
    } else if mnemonic == "RLF"@ {
        Some(Rule::FileDirection { opcode: 0b001101 })
    } else if mnemonic == "RRF"@ {
        Some(Rule::FileDirection { opcode: 0b001100 })
    } else if mnemonic == "SUBWF"@ {
        Some(Rule::FileDirection { opcode: 0b000010 })
    } else if mnemonic == "SWAPF"@ {
        Some(Rule::FileDirection { opcode: 0b001110 })
    } else if mnemonic == "XORWF"@ {
        Some(Rule::FileDirection { opcode: 0b000110 })
    } else if mnemonic == "CLRF"@ {
        Some(Rule::File { opcode: 0b0000011 })
    } else if mnemonic == "MOVWF"@ {
        Some(Rule::File { opcode: 0b0000001 })
    } else if mnemonic == "TRIS"@ {
        Some(Rule::Port)
    } else if mnemonic == "CLRW"@ {
        Some(Rule::Fixed { word: 0x040 })
    } else if mnemonic == "NOP"@ {
        Some(Rule::Fixed { word: 0x000 })
    } else if mnemonic == "CLRWDT"@ {
        Some(Rule::Fixed { word: 0x004 })
    } else if mnemonic == "OPTION"@ {
        Some(Rule::Fixed { word: 0x002 })
    } else if mnemonic == "SLEEP"@ {
        Some(Rule::Fixed { word: 0x003 })
    } else if mnemonic == "BCF"@ {
        Some(Rule::FileBit { opcode: 0b0100 })
    } else if mnemonic == "BSF"@ {
        Some(Rule::FileBit { opcode: 0b0101 })
    } else if mnemonic == "BTFSC"@ {
        Some(Rule::FileBit { opcode: 0b0110 })
    } else if mnemonic == "BTFSS"@ {
        Some(Rule::FileBit { opcode: 0b0111 })
    } else if mnemonic == "ANDLW"@ {
        Some(Rule::Literal { opcode: 0b1110 })
    } else if mnemonic == "CALL"@ {
        Some(Rule::Literal { opcode: 0b1001 })
    } else if mnemonic == "IORLW"@ {
        Some(Rule::Literal { opcode: 0b1101 })
    } else if mnemonic == "MOVLW"@ {
        Some(Rule::Literal { opcode: 0b1100 })
    } else if mnemonic == "RETLW"@ {
        Some(Rule::Literal { opcode: 0b1000 })
    } else if mnemonic == "XORLW"@ {
        Some(Rule::Literal { opcode: 0b1111 })
    } else if mnemonic == "GOTO"@ {
        Some(Rule::Jump { opcode: 0b101 })
    } else if mnemonic == "DATA"@ {
        Some(Rule::Data)
    } else {
        None
    }
}

/// The word of an instruction of `rule` whose operands have the values `a` and
/// `b`, as a number. A rule with fewer operands ignores the others.
pub open spec fn word_value(rule: Rule, a: usize, b: usize) -> nat {
    match rule {
        Rule::FileDirection { opcode } => (64 * opcode + 32 * (b % 2) + a % 32) as nat,
        Rule::File { opcode } => (32 * opcode + a % 32) as nat,
        Rule::Port => (a % 8) as nat,
        Rule::Fixed { word } => word as nat,
        Rule::FileBit { opcode } => (256 * opcode + 32 * (b % 8) + a % 32) as nat,
        Rule::Literal { opcode } => (256 * opcode + a % 256) as nat,
        Rule::Jump { opcode } => (512 * opcode + a % 512) as nat,
        Rule::Data => (a % 4096) as nat,
    }
}

/// The two bytes of the word `value`, low byte first.
pub open spec fn bytes_of(value: nat) -> Seq<u8> {
    seq![(value % 256) as u8, (value / 256 % 256) as u8]
}

/// The word of an instruction of `rule` whose operands have the values `a` and
/// `b`, as it stands in the image.
pub open spec fn word(rule: Rule, a: usize, b: usize) -> Seq<u8> {
    bytes_of(word_value(rule, a, b))
}

/// How many of the two operands are there. The second one never stands
/// without the first.
pub open spec fn operand_count(first: Option<Seq<char>>, second: Option<Seq<char>>) -> Option<
    nat,
> {
    match (first, second) {
        (None, None) => Some(0),
        (Some(_), None) => Some(1),
        (Some(_), Some(_)) => Some(2),
        (None, Some(_)) => None,
    }
}

/// The word of an instruction of `rule` with the operands `first` and `second`
/// on line `line`, in a program with the labels `symbols`.
///
/// The number of operands is held against the rule before any operand is
/// resolved, so an instruction with the wrong number of them fails with
/// `BadOpArgs` whatever its operands are. The operands are resolved in their
/// order, and the first one that fails decides the error.
pub open spec fn encoding(
    rule: Rule,
    symbols: Map<Seq<char>, usize>,
    first: Option<Seq<char>>,
    second: Option<Seq<char>>,
    line: nat,
) -> Result<Seq<u8>, Failure> {
    if operand_count(first, second) != Some(rule.arity()) {
        Err(Failure::BadOpArgs { line })
    } else if rule.arity() == 0 {
        Ok(word(rule, 0, 0))
    } else {
        match resolve(first.unwrap(), symbols) {
            Err(e) => Err(e),
            Ok(a) => if rule.arity() == 1 {
                Ok(word(rule, a, 0))
            } else {
                match resolve(second.unwrap(), symbols) {
                    Err(e) => Err(e),
                    Ok(b) => Ok(word(rule, a, b)),
                }
            },
        }
    }
}

/// What encoding an instruction yields, with the word taken as a sequence and
/// the error by what it stands for.
pub open spec fn word_outcome(r: Result<[u8; 2], AsmError>) -> Result<Seq<u8>, Failure> {
    match r {
        Ok(w) => Ok(w@),
        Err(e) => Err(e@),
    }
}

/// A literal instruction keeps its opcode: whatever the operand and whatever
/// the labels of the program, the high byte of its word is the opcode of its
/// rule, and the low byte is the value of the operand modulo 256.
pub proof fn lemma_literal_word(
    opcode: u8,
    symbols: Map<Seq<char>, usize>,
    first: Option<Seq<char>>,
    second: Option<Seq<char>>,
    line: nat,
)
    ensures
        encoding(Rule::Literal { opcode }, symbols, first, second, line) matches Ok(w) ==> {
            &&& first is Some
            &&& second is None
            &&& resolve(first.unwrap(), symbols) matches Ok(value)
            &&& w.len() == 2
            &&& w[0] == value % 256
            &&& w[1] == opcode
        },
{
}

/// The length of a mnemonic and its letters, as far as it has them.
pub open spec fn spelling(s: Seq<char>) -> (nat, char, char, char, char, char, char) {
    (s.len(), s[0], s[1], s[2], s[3], s[4], s[5])
}

/// A word is as long as its spelling says.
pub proof fn lemma_spelling(s: Seq<char>)
    ensures
        spelling(s).0 == s.len(),
{
}

/// The instruction set: every mnemonic with its rule. The six instructions
/// that take a literal are `ANDLW`, `CALL`, `IORLW`, `MOVLW`, `RETLW` and
/// `XORLW`.
pub proof fn lemma_instruction_set()
    ensures
        rule_of("ADDWF"@) == Some(Rule::FileDirection { opcode: 0b000111 }),
        rule_of("ANDWF"@) == Some(Rule::FileDirection { opcode: 0b000101 }),
        rule_of("COMF"@) == Some(Rule::FileDirection { opcode: 0b001001 }),
        rule_of("DECF"@) == Some(Rule::FileDirection { opcode: 0b000011 }),
        rule_of("DECFSZ"@) == Some(Rule::FileDirection { opcode: 0b001011 }),
        rule_of("INCF"@) == Some(Rule::FileDirection { opcode: 0b001010 }),
        rule_of("INCFSZ"@) == Some(Rule::FileDirection { opcode: 0b001111 }),
        rule_of("IORWF"@) == Some(Rule::FileDirection { opcode: 0b000100 }),
        rule_of("MOVF"@) == Some(Rule::FileDirection { opcode: 0b001000 }),
        rule_of("RLF"@) == Some(Rule::FileDirection { opcode: 0b001101 }),
        rule_of("RRF"@) == Some(Rule::FileDirection { opcode: 0b001100 }),
        rule_of("SUBWF"@) == Some(Rule::FileDirection { opcode: 0b000010 }),
        rule_of("SWAPF"@) == Some(Rule::FileDirection { opcode: 0b001110 }),
        rule_of("XORWF"@) == Some(Rule::FileDirection { opcode: 0b000110 }),
        rule_of("CLRF"@) == Some(Rule::File { opcode: 0b0000011 }),
        rule_of("MOVWF"@) == Some(Rule::File { opcode: 0b0000001 }),
        rule_of("TRIS"@) == Some(Rule::Port),
        rule_of("CLRW"@) == Some(Rule::Fixed { word: 0x040 }),
        rule_of("NOP"@) == Some(Rule::Fixed { word: 0x000 }),
        rule_of("CLRWDT"@) == Some(Rule::Fixed { word: 0x004 }),
        rule_of("OPTION"@) == Some(Rule::Fixed { word: 0x002 }),
        rule_of("SLEEP"@) == Some(Rule::Fixed { word: 0x003 }),
        rule_of("BCF"@) == Some(Rule::FileBit { opcode: 0b0100 }),
        rule_of("BSF"@) == Some(Rule::FileBit { opcode: 0b0101 }),
        rule_of("BTFSC"@) == Some(Rule::FileBit { opcode: 0b0110 }),
        rule_of("BTFSS"@) == Some(Rule::FileBit { opcode: 0b0111 }),
        rule_of("ANDLW"@) == Some(Rule::Literal { opcode: 0b1110 }),
        rule_of("CALL"@) == Some(Rule::Literal { opcode: 0b1001 }),
        rule_of("IORLW"@) == Some(Rule::Literal { opcode: 0b1101 }),
        rule_of("MOVLW"@) == Some(Rule::Literal { opcode: 0b1100 }),
        rule_of("RETLW"@) == Some(Rule::Literal { opcode: 0b1000 }),
        rule_of("XORLW"@) == Some(Rule::Literal { opcode: 0b1111 }),
        rule_of("GOTO"@) == Some(Rule::Jump { opcode: 0b101 }),
        rule_of("DATA"@) == Some(Rule::Data),
{
    reveal_strlit("ADDWF");
    lemma_spelling("ADDWF"@);
    reveal_strlit("ANDWF");
    lemma_spelling("ANDWF"@);
    reveal_strlit("COMF");
    lemma_spelling("COMF"@);
    reveal_strlit("DECF");
    lemma_spelling("DECF"@);
    reveal_strlit("DECFSZ");
    lemma_spelling("DECFSZ"@);
    reveal_strlit("INCF");
    lemma_spelling("INCF"@);
    reveal_strlit("INCFSZ");
    lemma_spelling("INCFSZ"@);
    reveal_strlit("IORWF");
    lemma_spelling("IORWF"@);
    reveal_strlit("MOVF");
    lemma_spelling("MOVF"@);
    reveal_strlit("RLF");
    lemma_spelling("RLF"@);
    reveal_strlit("RRF");
    lemma_spelling("RRF"@);
    reveal_strlit("SUBWF");
    lemma_spelling("SUBWF"@);
    reveal_strlit("SWAPF");
    lemma_spelling("SWAPF"@);
    reveal_strlit("XORWF");
    lemma_spelling("XORWF"@);
    reveal_strlit("CLRF");
    lemma_spelling("CLRF"@);
    reveal_strlit("MOVWF");
    lemma_spelling("MOVWF"@);
    reveal_strlit("TRIS");
    lemma_spelling("TRIS"@);
    reveal_strlit("CLRW");
    lemma_spelling("CLRW"@);
    reveal_strlit("NOP");
    lemma_spelling("NOP"@);
    reveal_strlit("CLRWDT");
    lemma_spelling("CLRWDT"@);
    reveal_strlit("OPTION");
    lemma_spelling("OPTION"@);
    reveal_strlit("SLEEP");
    lemma_spelling("SLEEP"@);
    reveal_strlit("BCF");
    lemma_spelling("BCF"@);
    reveal_strlit("BSF");
    lemma_spelling("BSF"@);
    reveal_strlit("BTFSC");
    lemma_spelling("BTFSC"@);
    reveal_strlit("BTFSS");
    lemma_spelling("BTFSS"@);
    reveal_strlit("ANDLW");
    lemma_spelling("ANDLW"@);
    reveal_strlit("CALL");
    lemma_spelling("CALL"@);
    reveal_strlit("IORLW");
    lemma_spelling("IORLW"@);
    reveal_strlit("MOVLW");
    lemma_spelling("MOVLW"@);
    reveal_strlit("RETLW");
    lemma_spelling("RETLW"@);
    reveal_strlit("XORLW");
    lemma_spelling("XORLW"@);
    reveal_strlit("GOTO");
    lemma_spelling("GOTO"@);
    reveal_strlit("DATA");
    lemma_spelling("DATA"@);
}

/// Every instruction of the set has a word of 12 bits, whatever its operands
/// are, so the high byte of its word holds no more than 4 bits.
pub proof fn lemma_twelve_bits(mnemonic: Seq<char>, a: usize, b: usize)
    ensures
        rule_of(mnemonic) matches Some(rule) ==> word_value(rule, a, b) < 4096 && word(
            rule,
            a,
            b,
        )[1] < 16,
{
}

/// The bytes of a word of at most 16 bits make up the word again, low byte
/// first.
pub proof fn lemma_bytes_of(value: nat)
    requires
        value < 65536,
    ensures
        bytes_of(value).len() == 2,
        bytes_of(value)[0] + 256 * bytes_of(value)[1] == value,
{
}

/// The rule of the mnemonic `mnemonic`, which is written in upper case.
pub fn find_rule(mnemonic: &Vec<char>) -> (rule: Option<Rule>)
    ensures
        rule == rule_of(mnemonic@),
{
    if spells(mnemonic, "ADDWF") {
        Some(Rule::FileDirection { opcode: 0b000111 })
    } else if spells(mnemonic, "ANDWF") {
        Some(Rule::FileDirection { opcode: 0b000101 })
    } else if spells(mnemonic, "COMF") {
        Some(Rule::FileDirection { opcode: 0b001001 })
    } else if spells(mnemonic, "DECF") {
        Some(Rule::FileDirection { opcode: 0b000011 })
    } else if spells(mnemonic, "DECFSZ") {
        Some(Rule::FileDirection { opcode: 0b001011 })
    } else if spells(mnemonic, "INCF") {
        Some(Rule::FileDirection { opcode: 0b001010 })
    } else if spells(mnemonic, "INCFSZ") {
        Some(Rule::FileDirection { opcode: 0b001111 })
    } else if spells(mnemonic, "IORWF") {
        Some(Rule::FileDirection { opcode: 0b000100 })
    } else if spells(mnemonic, "MOVF") {
        Some(Rule::FileDirection { opcode: 0b001000 })
    } else if spells(mnemonic, "RLF") {
        Some(Rule::FileDirection { opcode: 0b001101 })
    } else if spells(mnemonic, "RRF") {
        Some(Rule::FileDirection { opcode: 0b001100 })
    } else if spells(mnemonic, "SUBWF") {
        Some(Rule::FileDirection { opcode: 0b000010 })
    } else if spells(mnemonic, "SWAPF") {
        Some(Rule::FileDirection { opcode: 0b001110 })
    } else if spells(mnemonic, "XORWF") {
        Some(Rule::FileDirection { opcode: 0b000110 })
    } else if spells(mnemonic, "CLRF") {
        Some(Rule::File { opcode: 0b0000011 })
    } else if spells(mnemonic, "MOVWF") {
        Some(Rule::File { opcode: 0b0000001 })
    } else if spells(mnemonic, "TRIS") {
        Some(Rule::Port)
    } else if spells(mnemonic, "CLRW") {
        Some(Rule::Fixed { word: 0x040 })
    } else if spells(mnemonic, "NOP") {
        Some(Rule::Fixed { word: 0x000 })
    } else if spells(mnemonic, "CLRWDT") {
        Some(Rule::Fixed { word: 0x004 })
    } else if spells(mnemonic, "OPTION") {
        Some(Rule::Fixed { word: 0x002 })
    } else if spells(mnemonic, "SLEEP") {
        Some(Rule::Fixed { word: 0x003 })
    } else if spells(mnemonic, "BCF") {
        Some(Rule::FileBit { opcode: 0b0100 })
    } else if spells(mnemonic, "BSF") {
        Some(Rule::FileBit { opcode: 0b0101 })
    } else if spells(mnemonic, "BTFSC") {
        Some(Rule::FileBit { opcode: 0b0110 })
    } else if spells(mnemonic, "BTFSS") {
        Some(Rule::FileBit { opcode: 0b0111 })
    } else if spells(mnemonic, "ANDLW") {
        Some(Rule::Literal { opcode: 0b1110 })
    } else if spells(mnemonic, "CALL") {
        Some(Rule::Literal { opcode: 0b1001 })
    } else if spells(mnemonic, "IORLW") {
        Some(Rule::Literal { opcode: 0b1101 })
    } else if spells(mnemonic, "MOVLW") {
        Some(Rule::Literal { opcode: 0b1100 })
    } else if spells(mnemonic, "RETLW") {
        Some(Rule::Literal { opcode: 0b1000 })
    } else if spells(mnemonic, "XORLW") {
        Some(Rule::Literal { opcode: 0b1111 })
    } else if spells(mnemonic, "GOTO") {
        Some(Rule::Jump { opcode: 0b101 })
    } else if spells(mnemonic, "DATA") {
        Some(Rule::Data)
    } else {
        None
    }
}

/// The rule of the mnemonic `mnemonic`, which is written in upper case.
pub fn lookup(mnemonic: &str) -> (rule: Option<Rule>)
    ensures
        rule == rule_of(mnemonic@),
{
    let chars = to_chars(mnemonic);
    find_rule(&chars)
}

/// The word of an instruction of `rule` whose operands have the values `a` and
/// `b`.
pub fn pack(rule: Rule, a: usize, b: usize) -> (w: [u8; 2])
    ensures
        w@ == word(rule, a, b),
{
    let value: u16 = match rule {
        Rule::FileDirection { opcode } => {
            let f: u16 = (a % 32) as u16;
            let d: u16 = (b % 2) as u16;
            let op = opcode as u16;
            assert((op << 6) | (d << 5) | f == 64 * op + 32 * d + f) by (bit_vector)
                requires
                    op < 256,
                    d < 2,
                    f < 32,
            ;
            (op << 6) | (d << 5) | f
        },
        Rule::File { opcode } => {
            let f: u16 = (a % 32) as u16;
            let op = opcode as u16;
            assert((op << 5) | f == 32 * op + f) by (bit_vector)
                requires
                    op < 256,
                    f < 32,
            ;
            (op << 5) | f
        },
        Rule::Port => (a % 8) as u16,
        Rule::Fixed { word } => word,
        Rule::FileBit { opcode } => {
            let f: u16 = (a % 32) as u16;
            let n: u16 = (b % 8) as u16;
            let op = opcode as u16;
            assert((op << 8) | (n << 5) | f == 256 * op + 32 * n + f) by (bit_vector)
                requires
                    op < 256,
                    n < 8,
                    f < 32,
            ;
            (op << 8) | (n << 5) | f
        },
        Rule::Literal { opcode } => {
            let k: u16 = (a % 256) as u16;
            let op = opcode as u16;
            assert((op << 8) | k == 256 * op + k) by (bit_vector)
                requires
                    op < 256,
                    k < 256,
            ;
            (op << 8) | k
        },
        Rule::Jump { opcode } => {
            let k: u16 = (a % 512) as u16;
            let op = opcode as u16;
            assert(((op << 9) | k) as int == (512 * op + k) % 65536) by (bit_vector)
                requires
                    op < 256,
                    k < 512,
            ;
            (op << 9) | k
        },
        Rule::Data => (a % 4096) as u16,
    };
    assert(value & 0xFF == value % 256 && value >> 8 == value / 256) by (bit_vector);
    let w: [u8; 2] = [(value & 0xFF) as u8, (value >> 8) as u8];
    assert(w@ =~= word(rule, a, b));
    w
}

/// Encodes an instruction of `rule` with the operands `first` and `second` on
/// line `line`, in a program with the labels `labels`.
pub fn encode(
    rule: Rule,
    labels: &SymbolTable,
    first: &Option<Vec<char>>,
    second: &Option<Vec<char>>,
    line: usize,
) -> (r: Result<[u8; 2], AsmError>)
    ensures
        word_outcome(r) == encoding(
            rule,
            labels@,
            opt_view(*first),
            opt_view(*second),
            line as nat,
        ),
{
    let wanted = rule.operands();
    match (first, second) {
        (None, None) => {
            if wanted != 0 {
                return Err(AsmError::BadOpArgs(BadOpArgs(line)));
            }
            Ok(pack(rule, 0, 0))
        },
        (Some(f), None) => {
            if wanted != 1 {
                return Err(AsmError::BadOpArgs(BadOpArgs(line)));
            }
            let a = resolve_token(f, labels)?;
            Ok(pack(rule, a, 0))
        },
        (Some(f), Some(s)) => {
            if wanted != 2 {
                return Err(AsmError::BadOpArgs(BadOpArgs(line)));
            }
            let a = resolve_token(f, labels)?;
            let b = resolve_token(s, labels)?;
            Ok(pack(rule, a, b))
        },
        (None, Some(_)) => Err(AsmError::BadOpArgs(BadOpArgs(line))),
    }
}

} // verus!
