//! Operands: how a token becomes a number.
//!
//! A token is, in this order of precedence, a character in single quotes, a
//! numeric literal, the name of a register, or a label.

use crate::error::{outcome, AsmError, Failure, InvalidNumber, SyntaxError, UndefinedLabel};
use crate::symbols::SymbolTable;
use crate::text::{is_digit, spells, to_chars, to_string};
use vstd::prelude::*;

verus! {

/// The value of `c` as a digit: `0` to `9` are 0 to 9, and the letters, in
/// either case, count on from 10.
pub open spec fn digit_value(c: char) -> Option<nat> {
    if '0' <= c && c <= '9' {
        Some((c as u32 - '0' as u32) as nat)
    } else if 'a' <= c && c <= 'z' {
        Some((c as u32 - 'a' as u32 + 10) as nat)
    } else if 'A' <= c && c <= 'Z' {
        Some((c as u32 - 'A' as u32 + 10) as nat)
    } else {
        None
    }
}

/// Whether `c` is a digit of base `radix`.
pub open spec fn is_digit_of(c: char, radix: nat) -> bool {
    digit_value(c) is Some && digit_value(c).unwrap() < radix
}

/// Whether `s` holds digits of base `radix` only.
pub open spec fn all_digits(s: Seq<char>, radix: nat) -> bool {
    forall|i: int| 0 <= i < s.len() ==> is_digit_of(#[trigger] s[i], radix)
}

/// The number that the digits `s` spell in base `radix`, most significant
/// digit first.
pub open spec fn digits_value(s: Seq<char>, radix: nat) -> nat
    decreases s.len(),
{
    if s.len() == 0 {
        0
    } else {
        digits_value(s.drop_last(), radix) * radix + digit_value(s.last()).unwrap()
    }
}

/// The number that one or more digits of base `radix` spell. There is none
/// where `digits` is empty or holds anything else, or where the number does
/// not fit in a machine word.
pub open spec fn natural(digits: Seq<char>, radix: nat) -> Option<usize> {
    if digits.len() > 0 && all_digits(digits, radix) && digits_value(digits, radix) <= usize::MAX {
        Some(digits_value(digits, radix) as usize)
    } else {
        None
    }
}

/// The number that `s` spells in base `radix`: an optional `+`, and at least
/// one digit after it.
pub open spec fn number(s: Seq<char>, radix: nat) -> Option<usize> {
    if s.len() > 1 && s[0] == '+' {
        natural(s.skip(1), radix)
    } else {
        natural(s, radix)
    }
}

/// The base that a prefix letter names.
pub open spec fn radix_of(c: char) -> Option<nat> {
    if c == 'x' {
        Some(16)
    } else if c == 'o' {
        Some(8)
    } else if c == 'b' {
        Some(2)
    } else {
        None
    }
}

/// The file address of a named register. Names are case-sensitive.
pub open spec fn register(name: Seq<char>) -> Option<usize> {
    if name == "INDF"@ {
        Some(0)
    } else if name == "TMR0"@ {
        Some(1)
    } else if name == "PCL"@ {
        Some(2)
    } else if name == "STATUS"@ {
        Some(3)
    } else if name == "FSR"@ {
        Some(4)
    } else if name == "OSCCAL"@ {
        Some(5)
    } else if name == "GPIO"@ {
        Some(6)
    } else if name == "GPIOB"@ {
        Some(6)
    } else if name == "GOIPC"@ {
        Some(7)
    } else {
        None
    }
}

/// Whether a token is read as a number with a base prefix: it starts with `0`,
/// what follows is not `0`, and in UTF-8 the token is longer than two bytes,
/// that is, it has a third character or its second one is outside ASCII.
pub open spec fn has_prefix(token: Seq<char>) -> bool {
    token.len() >= 2 && token[0] == '0' && token[1] != '0' && (token.len() > 2 || token[1] as u32
        >= 0x80)
}

/// The value of a numeric literal: with a prefix `0x`, `0o` or `0b` the rest
/// in base 16, 8 or 2, and a decimal number otherwise. Another character in
/// the place of the prefix letter is a syntax error.
pub open spec fn literal(token: Seq<char>) -> Result<usize, Failure> {
    if has_prefix(token) {
        match radix_of(token[1]) {
            Some(radix) => match number(token.skip(2), radix) {
                Some(n) => Ok(n),
                None => Err(Failure::InvalidNumber { text: token }),
            },
            None => Err(Failure::Syntax { line: 0 }),
        }
    } else {
        match number(token, 10) {
            Some(n) => Ok(n),
            None => Err(Failure::InvalidNumber { text: token }),
        }
    }
}

/// The value of an operand. The first rule that applies decides:
/// a character between single quotes is its code point; a token that starts
/// with a digit is a numeric literal; the name of a register is its file
/// address; a label of `symbols` is its address. Any other token is an
/// undefined label.
pub open spec fn resolve(token: Seq<char>, symbols: Map<Seq<char>, usize>) -> Result<
    usize,
    Failure,
> {
    if token.len() == 3 && token[0] == '\'' && token[2] == '\'' {
        Ok(token[1] as usize)
    } else if token.len() > 0 && is_digit(token[0]) {
        literal(token)
    } else if register(token) is Some {
        Ok(register(token).unwrap())
    } else if symbols.contains_key(token) {
        Ok(symbols[token])
    } else {
        Err(Failure::UndefinedLabel { name: token })
    }
}

/// Whether a token can be the name of a label that operands refer to: it
/// does not start with a digit, is no character between quotes and no name of
/// a register.
pub open spec fn is_label_name(token: Seq<char>) -> bool {
    &&& token.len() > 0 ==> !is_digit(token[0])
    &&& !(token.len() == 3 && token[0] == '\'' && token[2] == '\'')
    &&& register(token) is None
}

/// A label resolves to the address it is bound to, and an unbound name to an
/// undefined label that carries the name.
pub proof fn lemma_label_resolves(label: Seq<char>, symbols: Map<Seq<char>, usize>)
    requires
        is_label_name(label),
    ensures
        symbols.contains_key(label) ==> resolve(label, symbols) == Ok::<usize, Failure>(
            symbols[label],
        ),
        !symbols.contains_key(label) ==> resolve(label, symbols) == Err::<usize, Failure>(
            Failure::UndefinedLabel { name: label },
        ),
{
}

/// Leaving digits off the end of a number does not make it larger.
pub proof fn lemma_digits_value_prefix(s: Seq<char>, radix: nat, k: int)
    requires
        0 <= k <= s.len(),
        radix >= 1,
    ensures
        digits_value(s.take(k), radix) <= digits_value(s, radix),
    decreases s.len(),
{
    if k == s.len() {
        assert(s.take(k) =~= s);
    } else {
        assert(s.drop_last().take(k) =~= s.take(k));
        lemma_digits_value_prefix(s.drop_last(), radix, k);
        assert(digits_value(s.drop_last(), radix) * radix >= digits_value(s.drop_last(), radix))
            by (nonlinear_arith)
            requires
                radix >= 1,
        ;
    }
}

/// The value of `c` as a digit.
pub fn to_digit(c: char) -> (d: Option<usize>)
    ensures
        match d {
            Some(v) => digit_value(c) == Some(v as nat),
            None => digit_value(c) is None,
        },
{
    let n: u32 = c as u32;
    if c >= '0' && c <= '9' {
        Some((n - 48) as usize)
    } else if c >= 'a' && c <= 'z' {
        Some((n - 97 + 10) as usize)
    } else if c >= 'A' && c <= 'Z' {
        Some((n - 65 + 10) as usize)
    } else {
        None
    }
}

/// The number that the characters of `s` from `from` on spell in base `radix`.
pub fn parse_number(s: &Vec<char>, from: usize, radix: usize) -> (r: Option<usize>)
    requires
        from <= s.len(),
        2 <= radix <= 36,
    ensures
        r == number(s@.skip(from as int), radix as nat),
{
    let start: usize = if s.len() - from > 1 && s[from] == '+' {
        from + 1
    } else {
        from
    };
    let ghost digits = s@.skip(start as int);
    assert(start != from ==> s@.skip(from as int).skip(1) =~= digits);
    if start == s.len() {
        return None;
    }
    let mut acc: usize = 0;
    let mut i: usize = start;
    while i < s.len()
        invariant
            start <= i <= s.len(),
            2 <= radix <= 36,
            digits == s@.skip(start as int),
            number(s@.skip(from as int), radix as nat) == natural(digits, radix as nat),
            all_digits(digits.take(i - start), radix as nat),
            acc == digits_value(digits.take(i - start), radix as nat),
        decreases s.len() - i,
    {
        let ghost k = i - start;
        proof {
            assert(digits.take(k + 1).drop_last() =~= digits.take(k));
            lemma_digits_value_prefix(digits, radix as nat, k + 1);
        }
        let d = match to_digit(s[i]) {
            Some(d) => d,
            None => {
                return None;
            },
        };
        if d >= radix {
            return None;
        }
        let shifted = match acc.checked_mul(radix) {
            Some(v) => v,
            None => {
                return None;
            },
        };
        acc = match shifted.checked_add(d) {
            Some(v) => v,
            None => {
                return None;
            },
        };
        i = i + 1;
    }
    assert(digits.take(digits.len() as int) =~= digits);
    Some(acc)
}

/// The base that the prefix letter `c` names.
pub fn parse_radix(c: char) -> (r: Option<usize>)
    ensures
        match r {
            Some(v) => radix_of(c) == Some(v as nat),
            None => radix_of(c) is None,
        },
{
    if c == 'x' {
        Some(16)
    } else if c == 'o' {
        Some(8)
    } else if c == 'b' {
        Some(2)
    } else {
        None
    }
}

/// The file address of the register `name`.
pub fn find_register(name: &Vec<char>) -> (r: Option<usize>)
    ensures
        r == register(name@),
{
    if spells(name, "INDF") {
        Some(0)
    } else if spells(name, "TMR0") {
        Some(1)
    } else if spells(name, "PCL") {
        Some(2)
    } else if spells(name, "STATUS") {
        Some(3)
    } else if spells(name, "FSR") {
        Some(4)
    } else if spells(name, "OSCCAL") {
        Some(5)
    } else if spells(name, "GPIO") {
        Some(6)
    } else if spells(name, "GPIOB") {
        Some(6)
    } else if spells(name, "GOIPC") {
        Some(7)
    } else {
        None
    }
}

/// The value of the numeric literal `token`.
pub fn parse_literal(token: &Vec<char>) -> (r: Result<usize, AsmError>)
    ensures
        outcome(r) == literal(token@),
{
    let prefixed = token.len() >= 2 && token[0] == '0' && token[1] != '0' && (token.len() > 2
        || token[1] as u32 >= 0x80);
    let parsed = if prefixed {
        match parse_radix(token[1]) {
            Some(radix) => parse_number(token, 2, radix),
            None => {
                return Err(AsmError::Syntax(SyntaxError { line: 0 }));
            },
        }
    } else {
        assert(token@.skip(0) =~= token@);
        parse_number(token, 0, 10)
    };
    match parsed {
        Some(n) => Ok(n),
        None => Err(AsmError::InvalidNumber(InvalidNumber(to_string(token)))),
    }
}

/// The value of the operand `token` in a program with the labels `labels`.
pub fn resolve_token(token: &Vec<char>, labels: &SymbolTable) -> (r: Result<usize, AsmError>)
    ensures
        outcome(r) == resolve(token@, labels@),
{
    if token.len() == 3 && token[0] == '\'' && token[2] == '\'' {
        return Ok(token[1] as usize);
    }
    if token.len() > 0 && token[0] >= '0' && token[0] <= '9' {
        return parse_literal(token);
    }
    if let Some(address) = find_register(token) {
        return Ok(address);
    }
    match labels.lookup(token) {
        Some(address) => Ok(address),
        None => Err(AsmError::UndefinedLabel(UndefinedLabel(to_string(token)))),
    }
}

/// The value of the operand `lit` in a program with the labels `labels`.
pub fn get_num(lit: &str, labels: &SymbolTable) -> (r: Result<usize, AsmError>)
    ensures
        outcome(r) == resolve(lit@, labels@),
{
    let token = to_chars(lit);
    resolve_token(&token, labels)
}

} // verus!
