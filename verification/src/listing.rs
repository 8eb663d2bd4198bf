//! The first pass: from the text of a program to its instructions in address
//! order and the table of its labels.
//!
//! Each line is cut at the first `;` and split at `:`. Without a colon the
//! line is an instruction, the directive `BANK`, or blank. With one colon it
//! is a label, which is bound to the address of the next instruction, and
//! after it an instruction or nothing. Memory comes in banks of 512 words:
//! `BANK` fills the current bank with `NOP` and opens the next one, and an
//! instruction that would start another bank without it does not fit.

use crate::error::{AsmError, DoesnotFit, Failure, SyntaxError};
use crate::symbols::SymbolTable;
use crate::text::{
    copy_range, lemma_split_nonempty, spells, split, split_at, to_chars, to_upper_all, trim,
    trimmed, upper_seq, views,
};
use vstd::prelude::*;

verus! {

/// The number of words in a memory bank.
pub const BANK_SIZE: usize = 512;

/// An instruction as the first pass leaves it: its text, and the number of
/// its line, counted from 1. The `NOP` that fills a bank has line 0.
#[derive(Debug, PartialEq, Eq)]
pub struct SourceInstruction {
    pub line: usize,
    pub text: Vec<char>,
}

/// What a `SourceInstruction` stands for.
pub struct Instruction {
    pub line: nat,
    pub text: Seq<char>,
}

impl View for SourceInstruction {
    type V = Instruction;

    open spec fn view(&self) -> Instruction {
        Instruction { line: self.line as nat, text: self.text@ }
    }
}

/// The result of the first pass. The address of an instruction is its index
/// in `instructions`. `banks` counts the `BANK` directives.
#[derive(Debug)]
pub struct Program {
    pub instructions: Vec<SourceInstruction>,
    pub symbols: SymbolTable,
    pub banks: usize,
}

/// What a `Program` stands for.
pub struct Listing {
    pub instructions: Seq<Instruction>,
    pub symbols: Map<Seq<char>, usize>,
    pub banks: nat,
}

impl View for Program {
    type V = Listing;

    open spec fn view(&self) -> Listing {
        Listing {
            instructions: Seq::new(self.instructions@.len(), |i: int| self.instructions@[i]@),
            symbols: self.symbols@,
            banks: self.banks as nat,
        }
    }
}

/// What the first pass yields, taken by what it stands for.
pub open spec fn listing_outcome(r: Result<Program, AsmError>) -> Result<Listing, Failure> {
    match r {
        Ok(p) => Ok(p@),
        Err(e) => Err(e@),
    }
}

/// `line` without a carriage return at its end.
pub open spec fn strip_cr(line: Seq<char>) -> Seq<char> {
    if line.len() > 0 && line.last() == '\r' {
        line.drop_last()
    } else {
        line
    }
}

/// The lines of a text. A line ends with a line feed, or with a carriage
/// return and a line feed; neither belongs to the line. What follows the last
/// line feed is a line too, unless it is empty.
pub open spec fn lines_of(s: Seq<char>) -> Seq<Seq<char>> {
    let pieces = split_at(s, '\n');
    let ended = pieces.drop_last();
    let whole = Seq::new(ended.len(), |i: int| strip_cr(ended[i]));
    if pieces.last().len() > 0 {
        whole.push(pieces.last())
    } else {
        whole
    }
}

/// The listing of the empty program.
pub open spec fn empty_listing() -> Listing {
    Listing { instructions: Seq::empty(), symbols: Map::empty(), banks: 0 }
}

/// The instruction that fills a bank.
pub open spec fn filler() -> Instruction {
    Instruction { line: 0, text: "NOP"@ }
}

/// Whether the text of an instruction is the directive that opens a new bank:
/// `BANK`, in either case.
pub open spec fn is_directive(body: Seq<char>) -> bool {
    upper_seq(body) == "BANK"@
}

/// Whether a listing keeps to its banks: it holds as many full banks as there
/// were `BANK` directives.
pub open spec fn fits(st: Listing) -> bool {
    st.instructions.len() / 512 == st.banks
}

/// `st` after a `BANK` directive: the instructions are filled up with `NOP`
/// to the end of the current bank.
pub open spec fn padded(st: Listing) -> Listing {
    let target = 512 * (st.banks + 1);
    Listing {
        instructions: st.instructions + Seq::new(
            (target - st.instructions.len()) as nat,
            |i: int| filler(),
        ),
        symbols: st.symbols,
        banks: st.banks + 1,
    }
}

/// `st` with `label` bound to the address of the next instruction.
pub open spec fn bound(st: Listing, label: Seq<char>) -> Listing {
    Listing {
        instructions: st.instructions,
        symbols: st.symbols.insert(label, st.instructions.len() as usize),
        banks: st.banks,
    }
}

/// `st` with the instruction `body` of line `number` at its end. An empty
/// body adds nothing.
pub open spec fn pushed(st: Listing, number: nat, body: Seq<char>) -> Listing {
    if body.len() == 0 {
        st
    } else {
        Listing {
            instructions: st.instructions.push(Instruction { line: number, text: body }),
            symbols: st.symbols,
            banks: st.banks,
        }
    }
}

/// `st` if it keeps to its banks, and the failure of line `number` if not.
pub open spec fn fitted(st: Listing, number: nat) -> Result<Listing, Failure> {
    if fits(st) {
        Ok(st)
    } else {
        Err(Failure::DoesnotFit { line: number })
    }
}

/// The parts of a line: what stands before the first `;`, split at `:`.
pub open spec fn parts_of(line: Seq<char>) -> Seq<Seq<char>> {
    split_at(split_at(line, ';')[0], ':')
}

/// The label that a line binds: what stands before its colon, without the
/// white space around it.
pub open spec fn label_of(line: Seq<char>) -> Option<Seq<char>> {
    if parts_of(line).len() == 2 {
        Some(trimmed(parts_of(line)[0]))
    } else {
        None
    }
}

/// The instruction of a line: what stands after its label, if it has one,
/// without the white space around it.
pub open spec fn body_of(line: Seq<char>) -> Seq<char> {
    trimmed(parts_of(line).last())
}

/// Whether a line is the directive that opens a new bank. A line with a label
/// is none.
pub open spec fn opens_bank(line: Seq<char>) -> bool {
    parts_of(line).len() == 1 && is_directive(body_of(line))
}

/// The listing `st` after the line `line`, which is line `number` of the
/// text.
///
/// A line with more than one colon is a syntax error. The directive fills
/// the bank. Any other line binds its label, if it has one, adds its
/// instruction, if it has one, and fails if the listing does not keep to its
/// banks afterwards.
pub open spec fn step(st: Listing, number: nat, line: Seq<char>) -> Result<Listing, Failure> {
    if parts_of(line).len() > 2 {
        Err(Failure::Syntax { line: number })
    } else if opens_bank(line) {
        Ok(padded(st))
    } else {
        let labelled = match label_of(line) {
            Some(label) => bound(st, label),
            None => st,
        };
        fitted(pushed(labelled, number, body_of(line)), number)
    }
}

/// The listing of a program with the lines `lines`. The first line that fails
/// decides the failure.
pub open spec fn run(lines: Seq<Seq<char>>) -> Result<Listing, Failure>
    decreases lines.len(),
{
    if lines.len() == 0 {
        Ok(empty_listing())
    } else {
        match run(lines.drop_last()) {
            Err(e) => Err(e),
            Ok(st) => step(st, lines.len(), lines.last()),
        }
    }
}

/// The listing of the program `text`.
pub open spec fn listing_of(text: Seq<char>) -> Result<Listing, Failure> {
    run(lines_of(text))
}

/// A failure on an earlier line is the failure of the whole program.
pub proof fn lemma_failure_stays(lines: Seq<Seq<char>>, k: int)
    requires
        0 <= k <= lines.len(),
        run(lines.take(k)) is Err,
    ensures
        run(lines) == run(lines.take(k)),
    decreases lines.len(),
{
    if k == lines.len() {
        assert(lines.take(k) =~= lines);
    } else {
        assert(lines.drop_last().take(k) =~= lines.take(k));
        lemma_failure_stays(lines.drop_last(), k);
    }
}

/// Every line keeps the listing to its banks.
pub proof fn lemma_step_fits(st: Listing, number: nat, line: Seq<char>)
    requires
        fits(st),
    ensures
        step(st, number, line) matches Ok(next) ==> fits(next),
{
    if opens_bank(line) {
        lemma_padded(st);
    }
}

/// Filling a bank adds at least one `NOP` and ends at the start of the next
/// bank.
pub proof fn lemma_padded(st: Listing)
    requires
        fits(st),
    ensures
        padded(st).instructions.len() == 512 * (st.banks + 1),
        padded(st).instructions.len() > st.instructions.len(),
        fits(padded(st)),
{
    let n = st.instructions.len();
    assert(n < 512 * (st.banks + 1)) by (nonlinear_arith)
        requires
            n / 512 == st.banks,
    ;
}

/// A listing keeps to its banks after every line: it holds as many full banks
/// as there were `BANK` directives, so no instruction lies across the end of
/// a bank.
pub proof fn lemma_run_fits(lines: Seq<Seq<char>>)
    ensures
        run(lines) matches Ok(st) ==> fits(st),
    decreases lines.len(),
{
    if lines.len() > 0 {
        lemma_run_fits(lines.drop_last());
        if let Ok(st) = run(lines.drop_last()) {
            lemma_step_fits(st, lines.len(), lines.last());
        }
    }
}

/// The directive `BANK` fills the current bank: the listing keeps its
/// instructions and its labels, and `NOP` is added up to the end of the bank,
/// so that the next instruction is the first of the next bank. After fewer
/// than 512 instructions, the first `BANK` brings the listing to exactly 512.
pub proof fn lemma_bank_fills(lines: Seq<Seq<char>>, bank: Seq<char>)
    requires
        run(lines) is Ok,
        opens_bank(bank),
    ensures
        run(lines.push(bank)) matches Ok(next) && run(lines) matches Ok(st) && {
            &&& next.banks == st.banks + 1
            &&& next.symbols == st.symbols
            &&& next.instructions.len() == 512 * (st.banks + 1)
            &&& st.instructions.len() < next.instructions.len()
            &&& next.instructions.take(st.instructions.len() as int) == st.instructions
            &&& forall|i: int|
                st.instructions.len() <= i < next.instructions.len()
                    ==> #[trigger] next.instructions[i] == filler()
            &&& st.banks == 0 ==> st.instructions.len() < 512 && next.instructions.len() == 512
        },
{
    assert(lines.push(bank).drop_last() =~= lines);
    lemma_run_fits(lines);
    lemma_padded(run(lines)->Ok_0);
}

/// An instruction does not fit exactly where it would be the last word of a
/// bank: a line that is no directive and has at most one colon fails with
/// `DoesnotFit` if it holds an instruction and 511 words of the current bank
/// are taken, and in no other case.
pub proof fn lemma_full_bank(st: Listing, number: nat, line: Seq<char>)
    requires
        fits(st),
        parts_of(line).len() <= 2,
        !opens_bank(line),
    ensures
        step(st, number, line) is Err <==> body_of(line).len() > 0 && st.instructions.len() % 512
            == 511,
        step(st, number, line) is Err ==> step(st, number, line) == Err::<Listing, Failure>(
            Failure::DoesnotFit { line: number },
        ),
{
}

/// Whether a line holds an instruction and nothing else: no label, and a text
/// that is neither empty nor the directive.
pub open spec fn is_plain(line: Seq<char>) -> bool {
    parts_of(line).len() == 1 && body_of(line).len() > 0 && !is_directive(body_of(line))
}

/// Without a `BANK` directive a program holds 511 instructions and no more:
/// of lines that hold an instruction each, the 512th does not fit, whatever
/// follows it.
pub proof fn lemma_one_bank_holds_511(lines: Seq<Seq<char>>)
    requires
        forall|i: int| 0 <= i < lines.len() ==> is_plain(#[trigger] lines[i]),
    ensures
        lines.len() < 512 ==> (run(lines) matches Ok(st) && st.instructions.len() == lines.len()
            && st.banks == 0),
        lines.len() >= 512 ==> run(lines) == Err::<Listing, Failure>(
            Failure::DoesnotFit { line: 512 },
        ),
    decreases lines.len(),
{
    if lines.len() > 0 {
        lemma_one_bank_holds_511(lines.drop_last());
    }
}

/// An earlier line of a program that assembles has a listing too.
pub proof fn lemma_prefix_runs(lines: Seq<Seq<char>>, k: int)
    requires
        0 <= k <= lines.len(),
        run(lines) is Ok,
    ensures
        run(lines.take(k)) is Ok,
{
    if run(lines.take(k)) is Err {
        lemma_failure_stays(lines, k);
    }
}

/// A label is bound to the address of the instruction that follows it.
///
/// Let line `k` bind `label`, and let no later line bind it again. In the
/// listing of the whole program the label has the number of instructions
/// that stand before line `k`. If line `k` holds an instruction itself, that
/// instruction stands at this very address.
pub proof fn lemma_label_address(lines: Seq<Seq<char>>, k: int, label: Seq<char>)
    requires
        0 <= k < lines.len(),
        label_of(lines[k]) == Some(label),
        forall|j: int| k < j < lines.len() ==> label_of(#[trigger] lines[j]) != Some(label),
        run(lines) is Ok,
    ensures
        run(lines.take(k)) matches Ok(before) && run(lines) matches Ok(st) && {
            let address = before.instructions.len();
            &&& st.symbols.contains_key(label)
            &&& st.symbols[label] == address as usize
            &&& body_of(lines[k]).len() > 0 ==> address < st.instructions.len()
                && st.instructions[address as int] == Instruction {
                line: (k + 1) as nat,
                text: body_of(lines[k]),
            }
        },
    decreases lines.len(),
{
    let init = lines.drop_last();
    lemma_prefix_runs(lines, lines.len() - 1);
    if k < lines.len() - 1 {
        assert(init.take(k) =~= lines.take(k));
        lemma_label_address(init, k, label);
        if opens_bank(lines.last()) {
            lemma_run_fits(init);
            lemma_padded(run(init)->Ok_0);
        }
    }
}

impl Program {
    /// The program without instructions or labels.
    pub fn new() -> (p: Program)
        ensures
            p@ == empty_listing(),
    {
        let p = Program { instructions: Vec::new(), symbols: SymbolTable::new(), banks: 0 };
        assert(p@.instructions =~= Seq::empty());
        p
    }

    /// Fills the current bank with `NOP` and opens the next one.
    fn pad(self) -> (p: Program)
        requires
            fits(self@),
        ensures
            p@ == padded(self@),
    {
        let mut p = self;
        let ghost before = p@;
        let used: usize = p.instructions.len() % BANK_SIZE;
        let missing: usize = BANK_SIZE - used;
        let mut k: usize = 0;
        while k < missing
            invariant
                k <= missing,
                p.symbols == self.symbols,
                p.banks == self.banks,
                p@.instructions == before.instructions + Seq::new(k as nat, |i: int| filler()),
            decreases missing - k,
        {
            let ghost filled = p@.instructions;
            p.instructions.push(SourceInstruction { line: 0, text: to_chars("NOP") });
            k = k + 1;
            assert(p@.instructions =~= filled.push(filler()));
        }
        let full: usize = p.instructions.len();
        assert(full == 512 * (self.banks + 1)) by (nonlinear_arith)
            requires
                full == before.instructions.len() + 512 - before.instructions.len() % 512,
                before.instructions.len() / 512 == self.banks,
        ;
        p.banks = p.banks + 1;
        p
    }

    /// Puts the instruction `body` of line `number` at the end, unless it is
    /// empty.
    fn push(self, number: usize, body: Vec<char>) -> (p: Program)
        ensures
            p@ == pushed(self@, number as nat, body@),
    {
        let mut p = self;
        if body.len() > 0 {
            let ghost old_instrs = p@.instructions;
            let ghost text = body@;
            p.instructions.push(SourceInstruction { line: number, text: body });
            assert(p@.instructions =~= old_instrs.push(
                Instruction { line: number as nat, text },
            ));
        }
        p
    }

    /// Binds `label` to the address of the next instruction.
    fn bind(self, label: Vec<char>) -> (p: Program)
        ensures
            p@ == bound(self@, label@),
    {
        let mut p = self;
        let address: usize = p.instructions.len();
        p.symbols.bind(label, address);
        p
    }

    /// The program if it keeps to its banks, and the failure of line `number`
    /// if not.
    fn ensure_fits(self, number: usize) -> (r: Result<Program, AsmError>)
        ensures
            listing_outcome(r) == fitted(self@, number as nat),
    {
        if self.instructions.len() / BANK_SIZE != self.banks {
            Err(AsmError::DoesnotFit(DoesnotFit(number)))
        } else {
            Ok(self)
        }
    }

    /// The program after the line `line`, which is line `number` of the text.
    pub fn add_line(self, number: usize, line: &Vec<char>) -> (r: Result<Program, AsmError>)
        requires
            fits(self@),
        ensures
            listing_outcome(r) == step(self@, number as nat, line@),
            r matches Ok(p) ==> fits(p@),
    {
        proof {
            lemma_step_fits(self@, number as nat, line@);
            lemma_split_nonempty(line@, ';');
        }
        let pieces = split(line, ';');
        let parts = split(&pieces[0], ':');
        if parts.len() == 1 {
            let body = trim(&parts[0]);
            let shout = to_upper_all(&body);
            if spells(&shout, "BANK") {
                Ok(self.pad())
            } else {
                self.push(number, body).ensure_fits(number)
            }
        } else if parts.len() == 2 {
            let label = trim(&parts[0]);
            let body = trim(&parts[1]);
            self.bind(label).push(number, body).ensure_fits(number)
        } else {
            Err(AsmError::Syntax(SyntaxError { line: number }))
        }
    }
}

/// The lines of `text`.
pub fn lines(text: &Vec<char>) -> (r: Vec<Vec<char>>)
    ensures
        views(r@) == lines_of(text@),
{
    let pieces = split(text, '\n');
    let ghost ended = views(pieces@).drop_last();
    let ghost whole = Seq::new(ended.len(), |i: int| strip_cr(ended[i]));
    let mut r: Vec<Vec<char>> = Vec::new();
    let mut i: usize = 0;
    let last: usize = pieces.len() - 1;
    while i < last
        invariant
            i <= last,
            last == pieces.len() - 1,
            ended == views(pieces@).drop_last(),
            whole == Seq::new(ended.len(), |i: int| strip_cr(ended[i])),
            views(r@) == whole.take(i as int),
        decreases last - i,
    {
        let piece = &pieces[i];
        let n: usize = piece.len();
        let line = if n > 0 && piece[n - 1] == '\r' {
            copy_range(piece, 0, n - 1)
        } else {
            copy_range(piece, 0, n)
        };
        assert(line@ =~= strip_cr(piece@));
        let ghost before = views(r@);
        r.push(line);
        i = i + 1;
        assert(views(r@) =~= before.push(line@));
    }
    assert(whole.take(last as int) =~= whole);
    let tail = &pieces[last];
    if tail.len() > 0 {
        let line = copy_range(tail, 0, tail.len());
        assert(line@ =~= tail@);
        r.push(line);
    }
    r
}

/// Runs the first pass over the characters of a program.
pub fn normalize_chars(text: &Vec<char>) -> (r: Result<Program, AsmError>)
    ensures
        listing_outcome(r) == listing_of(text@),
        r matches Ok(p) ==> fits(p@),
{
    let all = lines(text);
    let mut program = Program::new();
    let mut i: usize = 0;
    while i < all.len()
        invariant
            i <= all.len(),
            views(all@) == lines_of(text@),
            run(views(all@).take(i as int)) == Ok::<Listing, Failure>(program@),
            fits(program@),
        decreases all.len() - i,
    {
        assert(views(all@).take(i + 1).drop_last() =~= views(all@).take(i as int));
        match program.add_line(i + 1, &all[i]) {
            Ok(p) => {
                program = p;
            },
            Err(e) => {
                proof {
                    lemma_failure_stays(views(all@), i + 1);
                }
                return Err(e);
            },
        }
        i = i + 1;
    }
    assert(views(all@).take(all.len() as int) =~= views(all@));
    Ok(program)
}

/// Runs the first pass over the program `text`.
pub fn normalize(text: &str) -> (r: Result<Program, AsmError>)
    ensures
        listing_outcome(r) == listing_of(text@),
        r matches Ok(p) ==> fits(p@),
{
    let chars = to_chars(text);
    normalize_chars(&chars)
}

} // verus!
