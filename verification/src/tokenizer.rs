//! The tokenizer: the mnemonic and the operands of one instruction.
//!
//! An instruction is a mnemonic of ASCII letters; after white space, a first
//! operand, which is a name of letters, digits and `_` or one character
//! between single quotes; and after a comma, a second operand of decimal
//! digits. White space may stand on both sides of the comma. The mnemonic is
//! the first run of letters in the text: what stands before it, and what
//! follows the last part that fits this shape, is passed over.

use crate::text::{
    all_in, copy_range, find_class, is_digit, is_letter, is_word, lemma_next_in_bounds,
    lemma_next_in_is, lemma_run_end_bounds, lemma_run_end_is, next_in, opt_view, run_end,
    skip_run, to_chars, CharClass,
};
use vstd::prelude::*;

verus! {

/// The parts of an instruction, as they are written.
#[derive(Debug, PartialEq, Eq)]
pub struct Tokens {
    pub mnemonic: Vec<char>,
    pub first: Option<Vec<char>>,
    pub second: Option<Vec<char>>,
}

/// What `Tokens` stands for.
pub struct Lexemes {
    pub mnemonic: Seq<char>,
    pub first: Option<Seq<char>>,
    pub second: Option<Seq<char>>,
}

impl View for Tokens {
    type V = Lexemes;

    open spec fn view(&self) -> Lexemes {
        Lexemes {
            mnemonic: self.mnemonic@,
            first: opt_view(self.first),
            second: opt_view(self.second),
        }
    }
}

/// What tokenizing yields, taken by what it stands for.
pub open spec fn tokens_view(t: Option<Tokens>) -> Option<Lexemes> {
    match t {
        Some(t) => Some(t@),
        None => None,
    }
}

/// Where the first operand ends if it starts at `at`: after the longest name
/// that starts there, or after a quoted character. The quoted character is
/// any but a line feed.
pub open spec fn first_end(s: Seq<char>, at: int) -> Option<int> {
    if 0 <= at < s.len() && is_word(s[at]) {
        Some(run_end(s, CharClass::Word, at))
    } else if 0 <= at && at + 2 < s.len() && s[at] == '\'' && s[at + 1] != '\n' && s[at + 2]
        == '\'' {
        Some(at + 3)
    } else {
        None
    }
}

/// Where the second operand stands if the first one ends at `at`: its start
/// and its end. There is one if a comma follows, with or without white space
/// on either side, and a digit after it; the operand is the longest run of
/// digits there.
pub open spec fn second_span(s: Seq<char>, at: int) -> Option<(int, int)> {
    let comma = run_end(s, CharClass::Space, at);
    if 0 <= comma < s.len() && s[comma] == ',' {
        let start = run_end(s, CharClass::Space, comma + 1);
        if 0 <= start < s.len() && is_digit(s[start]) {
            Some((start, run_end(s, CharClass::Digit, start)))
        } else {
            None
        }
    } else {
        None
    }
}

/// The parts of the instruction `s`. There are none if `s` holds no letter.
///
/// The mnemonic is the longest run of letters that starts at the first letter
/// of `s`. The first operand needs white space between the mnemonic and
/// itself. Without a first operand there is no second one.
pub open spec fn tokens_of(s: Seq<char>) -> Option<Lexemes> {
    let start = next_in(s, CharClass::Letter, 0);
    if start >= s.len() {
        None
    } else {
        let end = run_end(s, CharClass::Letter, start);
        let at = run_end(s, CharClass::Space, end);
        let mnemonic = s.subrange(start, end);
        if at > end && first_end(s, at) is Some {
            let stop = first_end(s, at).unwrap();
            Some(
                Lexemes {
                    mnemonic,
                    first: Some(s.subrange(at, stop)),
                    second: match second_span(s, stop) {
                        Some((a, b)) => Some(s.subrange(a, b)),
                        None => None,
                    },
                },
            )
        } else {
            Some(Lexemes { mnemonic, first: None, second: None })
        }
    }
}

/// Whether `t` has the shape of an operand that stands first.
pub open spec fn is_first_operand(t: Seq<char>) -> bool {
    ||| t.len() > 0 && forall|i: int| 0 <= i < t.len() ==> is_word(#[trigger] t[i])
    ||| t.len() == 3 && t[0] == '\'' && t[1] != '\n' && t[2] == '\''
}

/// Whether the parts `t` have the shape that the grammar gives them.
pub open spec fn well_formed(t: Lexemes) -> bool {
    &&& t.mnemonic.len() > 0
    &&& forall|i: int| 0 <= i < t.mnemonic.len() ==> is_letter(#[trigger] t.mnemonic[i])
    &&& t.first matches Some(f) ==> is_first_operand(f)
    &&& t.second matches Some(s) ==> {
        &&& t.first is Some
        &&& s.len() > 0
        &&& forall|i: int| 0 <= i < s.len() ==> is_digit(#[trigger] s[i])
    }
}

/// The parts of any instruction have the shape that the grammar gives them:
/// the mnemonic is one or more letters, the first operand a name or a quoted
/// character, the second one, which never stands alone, one or more digits.
pub proof fn lemma_tokens_well_formed(s: Seq<char>)
    ensures
        tokens_of(s) matches Some(t) ==> well_formed(t),
{
    let start = next_in(s, CharClass::Letter, 0);
    lemma_next_in_bounds(s, CharClass::Letter, 0);
    if start < s.len() {
        let end = run_end(s, CharClass::Letter, start);
        lemma_run_end_bounds(s, CharClass::Letter, start);
        let at = run_end(s, CharClass::Space, end);
        lemma_run_end_bounds(s, CharClass::Space, end);
        if at > end && first_end(s, at) is Some {
            let stop = first_end(s, at)->Some_0;
            lemma_run_end_bounds(s, CharClass::Word, at);
            lemma_run_end_bounds(s, CharClass::Space, stop);
            let comma = run_end(s, CharClass::Space, stop);
            if comma < s.len() {
                lemma_run_end_bounds(s, CharClass::Space, comma + 1);
                let from = run_end(s, CharClass::Space, comma + 1);
                if from < s.len() {
                    lemma_run_end_bounds(s, CharClass::Digit, from);
                }
            }
        }
    }
}

/// A mnemonic alone is an instruction without operands.
pub proof fn lemma_tokens_of_mnemonic(mnemonic: Seq<char>)
    requires
        mnemonic.len() > 0,
        all_in(mnemonic, CharClass::Letter),
    ensures
        tokens_of(mnemonic) == Some(Lexemes { mnemonic, first: None, second: None }),
{
    let end = mnemonic.len() as int;
    lemma_next_in_is(mnemonic, CharClass::Letter, 0, 0);
    lemma_run_end_is(mnemonic, CharClass::Letter, 0, end);
    lemma_run_end_is(mnemonic, CharClass::Space, end, end);
    assert(mnemonic.subrange(0, end) =~= mnemonic);
}

/// An instruction that is written as a mnemonic, white space and an operand
/// is split into the mnemonic and the operand.
pub proof fn lemma_tokens_of_one_operand(mnemonic: Seq<char>, gap: Seq<char>, first: Seq<char>)
    requires
        mnemonic.len() > 0,
        all_in(mnemonic, CharClass::Letter),
        gap.len() > 0,
        all_in(gap, CharClass::Space),
        is_first_operand(first),
    ensures
        tokens_of(mnemonic + gap + first) == Some(
            Lexemes { mnemonic, first: Some(first), second: None },
        ),
{
    let s = mnemonic + gap + first;
    let m = mnemonic.len() as int;
    let at = m + gap.len();
    lemma_written_start(s, mnemonic, gap, first);
    lemma_run_end_is(s, CharClass::Space, s.len() as int, s.len() as int);
    assert(s.subrange(0, m) =~= mnemonic);
    assert(s.subrange(at, s.len() as int) =~= first);
}

/// An instruction that is written as a mnemonic, white space, an operand, a
/// comma with or without white space around it, and digits, is split into
/// the mnemonic and the two operands.
pub proof fn lemma_tokens_of_two_operands(
    mnemonic: Seq<char>,
    gap: Seq<char>,
    first: Seq<char>,
    before: Seq<char>,
    after: Seq<char>,
    second: Seq<char>,
)
    requires
        mnemonic.len() > 0,
        all_in(mnemonic, CharClass::Letter),
        gap.len() > 0,
        all_in(gap, CharClass::Space),
        is_first_operand(first),
        all_in(before, CharClass::Space),
        all_in(after, CharClass::Space),
        second.len() > 0,
        all_in(second, CharClass::Digit),
    ensures
        tokens_of(mnemonic + gap + first + before + seq![','] + after + second) == Some(
            Lexemes { mnemonic, first: Some(first), second: Some(second) },
        ),
{
    let rest = before + seq![','] + after + second;
    let s = mnemonic + gap + first + before + seq![','] + after + second;
    let m = mnemonic.len() as int;
    let at = m + gap.len();
    let stop = at + first.len();
    let comma = stop + before.len();
    let from = comma + 1 + after.len();
    assert(s =~= mnemonic + gap + (first + rest));
    assert(!is_word(rest[0]));
    lemma_written_start(s, mnemonic, gap, first + rest);
    assert(forall|i: int| at <= i < stop ==> s[i] == first[i - at]);
    if is_word(first[0]) {
        lemma_run_end_is(s, CharClass::Word, at, stop);
    }
    assert(forall|i: int| stop <= i < comma ==> s[i] == before[i - stop]);
    lemma_run_end_is(s, CharClass::Space, stop, comma);
    assert(forall|i: int| comma + 1 <= i < from ==> s[i] == after[i - comma - 1]);
    assert(forall|i: int| from <= i < s.len() ==> s[i] == second[i - from]);
    lemma_run_end_is(s, CharClass::Space, comma + 1, from);
    lemma_run_end_is(s, CharClass::Digit, from, s.len() as int);
    assert(s.subrange(0, m) =~= mnemonic);
    assert(s.subrange(at, stop) =~= first);
    assert(s.subrange(from, s.len() as int) =~= second);
}

/// In a text that starts with a mnemonic, white space and something that is
/// no white space, the mnemonic is found at the start and what follows the
/// white space is looked at as the first operand. If that is an operand and
/// the text ends with it, the operand ends where the text ends.
proof fn lemma_written_start(s: Seq<char>, mnemonic: Seq<char>, gap: Seq<char>, rest: Seq<char>)
    requires
        s == mnemonic + gap + rest,
        mnemonic.len() > 0,
        all_in(mnemonic, CharClass::Letter),
        gap.len() > 0,
        all_in(gap, CharClass::Space),
        rest.len() > 0,
        is_word(rest[0]) || rest[0] == '\'',
    ensures
        next_in(s, CharClass::Letter, 0) == 0,
        run_end(s, CharClass::Letter, 0) == mnemonic.len(),
        run_end(s, CharClass::Space, mnemonic.len() as int) == mnemonic.len() + gap.len(),
        is_first_operand(rest) ==> first_end(s, (mnemonic.len() + gap.len()) as int) == Some(
            s.len() as int,
        ),
{
    let m = mnemonic.len() as int;
    let at = m + gap.len();
    assert(forall|i: int| 0 <= i < m ==> s[i] == mnemonic[i]);
    assert(forall|i: int| m <= i < at ==> s[i] == gap[i - m]);
    assert(forall|i: int| at <= i < s.len() ==> s[i] == rest[i - at]);
    lemma_next_in_is(s, CharClass::Letter, 0, 0);
    lemma_run_end_is(s, CharClass::Letter, 0, m);
    lemma_run_end_is(s, CharClass::Space, m, at);
    if is_first_operand(rest) && is_word(rest[0]) {
        lemma_run_end_is(s, CharClass::Word, at, s.len() as int);
    }
}

/// The end of the first operand, if one starts at `at`.
fn scan_first(s: &Vec<char>, at: usize) -> (stop: Option<usize>)
    requires
        at <= s.len(),
    ensures
        match stop {
            Some(e) => first_end(s@, at as int) == Some(e as int) && at < e <= s.len(),
            None => first_end(s@, at as int) is None,
        },
{
    if at < s.len() && CharClass::Word.contains(s[at]) {
        let e = skip_run(s, CharClass::Word, at);
        proof {
            lemma_run_end_bounds(s@, CharClass::Word, at as int);
        }
        Some(e)
    } else if s.len() - at > 2 && s[at] == '\'' && s[at + 1] != '\n' && s[at + 2] == '\'' {
        Some(at + 3)
    } else {
        None
    }
}

/// The start and the end of the second operand, if there is one after a first
/// operand that ends at `at`.
fn scan_second(s: &Vec<char>, at: usize) -> (span: Option<(usize, usize)>)
    requires
        at <= s.len(),
    ensures
        match span {
            Some((a, b)) => second_span(s@, at as int) == Some((a as int, b as int)) && a < b
                <= s.len(),
            None => second_span(s@, at as int) is None,
        },
{
    let comma = skip_run(s, CharClass::Space, at);
    if comma < s.len() && s[comma] == ',' {
        let start = skip_run(s, CharClass::Space, comma + 1);
        if start < s.len() && CharClass::Digit.contains(s[start]) {
            let end = skip_run(s, CharClass::Digit, start);
            proof {
                lemma_run_end_bounds(s@, CharClass::Digit, start as int);
            }
            Some((start, end))
        } else {
            None
        }
    } else {
        None
    }
}

/// Splits the instruction `text` into its parts.
pub fn tokenize_chars(text: &Vec<char>) -> (tokens: Option<Tokens>)
    ensures
        tokens_view(tokens) == tokens_of(text@),
        tokens matches Some(t) ==> well_formed(t@),
{
    proof {
        lemma_tokens_well_formed(text@);
    }
    let start = find_class(text, CharClass::Letter, 0);
    if start >= text.len() {
        return None;
    }
    let end = skip_run(text, CharClass::Letter, start);
    let at = skip_run(text, CharClass::Space, end);
    let mnemonic = copy_range(text, start, end);
    if at > end {
        if let Some(stop) = scan_first(text, at) {
            let first = copy_range(text, at, stop);
            let second = match scan_second(text, stop) {
                Some((a, b)) => Some(copy_range(text, a, b)),
                None => None,
            };
            return Some(Tokens { mnemonic, first: Some(first), second });
        }
    }
    Some(Tokens { mnemonic, first: None, second: None })
}

/// Splits the instruction `text` into its parts.
pub fn tokenize(text: &str) -> (tokens: Option<Tokens>)
    ensures
        tokens_view(tokens) == tokens_of(text@),
        tokens matches Some(t) ==> well_formed(t@),
{
    let chars = to_chars(text);
    tokenize_chars(&chars)
}

} // verus!
