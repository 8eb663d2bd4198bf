//! Characters, character classes and the sequence operations the passes share.

use vstd::prelude::*;

verus! {

/// Whether `c` is white space: the characters with the Unicode property
/// `White_Space`.
pub open spec fn is_space(c: char) -> bool {
    let n = c as u32;
    (0x09 <= n && n <= 0x0D) || n == 0x20 || n == 0x85 || n == 0xA0 || n == 0x1680 || (0x2000
        <= n && n <= 0x200A) || n == 0x2028 || n == 0x2029 || n == 0x202F || n == 0x205F || n
        == 0x3000
}

/// Whether `c` is an ASCII letter.
pub open spec fn is_letter(c: char) -> bool {
    ('a' <= c && c <= 'z') || ('A' <= c && c <= 'Z')
}

/// Whether `c` is an ASCII decimal digit.
pub open spec fn is_digit(c: char) -> bool {
    '0' <= c && c <= '9'
}

/// Whether `c` may stand in a name: an ASCII letter, a digit or `_`.
pub open spec fn is_word(c: char) -> bool {
    is_letter(c) || is_digit(c) || c == '_'
}

/// The upper-case form of an ASCII letter; every other character is itself.
pub open spec fn upper(c: char) -> char {
    if 'a' <= c && c <= 'z' {
        ((c as u32) - 32) as char
    } else {
        c
    }
}

/// `s` with every character in upper case.
pub open spec fn upper_seq(s: Seq<char>) -> Seq<char> {
    Seq::new(s.len(), |i: int| upper(s[i]))
}

/// The classes of characters that the grammar of a line is made of.
#[derive(Clone, Copy, Debug, PartialEq, Eq)]
pub enum CharClass {
    Space,
    Letter,
    Word,
    Digit,
}

impl CharClass {
    /// Whether `c` belongs to the class.
    pub open spec fn has(self, c: char) -> bool {
        match self {
            CharClass::Space => is_space(c),
            CharClass::Letter => is_letter(c),
            CharClass::Word => is_word(c),
            CharClass::Digit => is_digit(c),
        }
    }

    /// Whether `c` belongs to the class.
    pub fn contains(self, c: char) -> (b: bool)
        ensures
            b == self.has(c),
    {
        match self {
            CharClass::Space => {
                let n: u32 = c as u32;
                (0x09 <= n && n <= 0x0D) || n == 0x20 || n == 0x85 || n == 0xA0 || n == 0x1680
                    || (0x2000 <= n && n <= 0x200A) || n == 0x2028 || n == 0x2029 || n == 0x202F
                    || n == 0x205F || n == 0x3000
            },
            CharClass::Letter => (c >= 'a' && c <= 'z') || (c >= 'A' && c <= 'Z'),
            CharClass::Word => (c >= 'a' && c <= 'z') || (c >= 'A' && c <= 'Z') || (c >= '0' && c
                <= '9') || c == '_',
            CharClass::Digit => c >= '0' && c <= '9',
        }
    }
}

/// Where the run of `class` characters that starts at `from` ends: the first
/// position at or after `from` whose character is outside the class, or the
/// length of `s`.
pub open spec fn run_end(s: Seq<char>, class: CharClass, from: int) -> int
    decreases s.len() - from,
{
    if 0 <= from < s.len() && class.has(s[from]) {
        run_end(s, class, from + 1)
    } else {
        from
    }
}

/// Where the run of `class` characters that ends at `to` starts.
pub open spec fn run_start(s: Seq<char>, class: CharClass, to: int) -> int
    decreases to,
{
    if 0 < to <= s.len() && class.has(s[to - 1]) {
        run_start(s, class, to - 1)
    } else {
        to
    }
}

/// The first position at or after `from` whose character is in `class`, or the
/// length of `s`.
pub open spec fn next_in(s: Seq<char>, class: CharClass, from: int) -> int
    decreases s.len() - from,
{
    if 0 <= from < s.len() && !class.has(s[from]) {
        next_in(s, class, from + 1)
    } else {
        from
    }
}

/// `s` without the white space at its two ends.
pub open spec fn trimmed(s: Seq<char>) -> Seq<char> {
    let a = run_end(s, CharClass::Space, 0);
    let b = run_start(s, CharClass::Space, s.len() as int);
    if a < b {
        s.subrange(a, b)
    } else {
        Seq::empty()
    }
}

/// The pieces of `s` between the occurrences of `sep`. There is one piece
/// more than there are separators, so the result is never empty.
pub open spec fn split_at(s: Seq<char>, sep: char) -> Seq<Seq<char>>
    decreases s.len(),
{
    if s.len() == 0 {
        seq![Seq::empty()]
    } else {
        let init = split_at(s.drop_last(), sep);
        if s.last() == sep {
            init.push(Seq::empty())
        } else {
            init.drop_last().push(init.last().push(s.last()))
        }
    }
}

/// The pieces `pieces` with `sep` between each two of them.
pub open spec fn joined(pieces: Seq<Seq<char>>, sep: char) -> Seq<char>
    decreases pieces.len(),
{
    if pieces.len() == 0 {
        Seq::empty()
    } else if pieces.len() == 1 {
        pieces[0]
    } else {
        joined(pieces.drop_last(), sep).push(sep) + pieces.last()
    }
}

/// Whether every character of `s` is in `class`.
pub open spec fn all_in(s: Seq<char>, class: CharClass) -> bool {
    forall|i: int| 0 <= i < s.len() ==> class.has(#[trigger] s[i])
}

/// The contents of a list of character vectors.
pub open spec fn views(v: Seq<Vec<char>>) -> Seq<Seq<char>> {
    Seq::new(v.len(), |i: int| v[i]@)
}

/// The contents of an optional character vector.
pub open spec fn opt_view(v: Option<Vec<char>>) -> Option<Seq<char>> {
    match v {
        Some(x) => Some(x@),
        None => None,
    }
}

/// A run ends at the first character outside its class: if the characters
/// from `from` up to `to` are in `class`, and the one at `to`, if there is
/// one, is not, the run that starts at `from` ends at `to`.
pub proof fn lemma_run_end_is(s: Seq<char>, class: CharClass, from: int, to: int)
    requires
        0 <= from <= to <= s.len(),
        forall|i: int| from <= i < to ==> class.has(#[trigger] s[i]),
        to < s.len() ==> !class.has(s[to]),
    ensures
        run_end(s, class, from) == to,
    decreases to - from,
{
    if from < to {
        lemma_run_end_is(s, class, from + 1, to);
    }
}

/// The first character of a class is found behind characters outside it: if
/// the characters from `from` up to `to` are outside `class`, and the one at
/// `to`, if there is one, is in it, the search from `from` ends at `to`.
pub proof fn lemma_next_in_is(s: Seq<char>, class: CharClass, from: int, to: int)
    requires
        0 <= from <= to <= s.len(),
        forall|i: int| from <= i < to ==> !class.has(#[trigger] s[i]),
        to < s.len() ==> class.has(s[to]),
    ensures
        next_in(s, class, from) == to,
    decreases to - from,
{
    if from < to {
        lemma_next_in_is(s, class, from + 1, to);
    }
}

/// Splitting undoes joining: the pieces of a text hold no separator, and with
/// the separator between them they make up the text again.
pub proof fn lemma_split_joins(s: Seq<char>, sep: char)
    ensures
        joined(split_at(s, sep), sep) == s,
        forall|i: int, j: int|
            0 <= i < split_at(s, sep).len() && 0 <= j < split_at(s, sep)[i].len() ==> split_at(
                s,
                sep,
            )[i][j] != sep,
    decreases s.len(),
{
    if s.len() > 0 {
        let init = split_at(s.drop_last(), sep);
        lemma_split_joins(s.drop_last(), sep);
        lemma_split_nonempty(s.drop_last(), sep);
        let pieces = split_at(s, sep);
        if s.last() == sep {
            assert(pieces.drop_last() =~= init);
        } else if init.len() > 1 {
            assert(pieces.drop_last() =~= init.drop_last());
            assert(joined(pieces, sep) =~= joined(init, sep).push(s.last()));
        }
    }
}

/// A run ends within the text, holds characters of its class only, and is
/// followed by a character outside the class or by nothing.
pub proof fn lemma_run_end_bounds(s: Seq<char>, class: CharClass, from: int)
    requires
        0 <= from <= s.len(),
    ensures
        from <= run_end(s, class, from) <= s.len(),
        forall|i: int| from <= i < run_end(s, class, from) ==> class.has(#[trigger] s[i]),
        run_end(s, class, from) < s.len() ==> !class.has(s[run_end(s, class, from)]),
    decreases s.len() - from,
{
    if from < s.len() && class.has(s[from]) {
        lemma_run_end_bounds(s, class, from + 1);
    }
}

/// A run that is followed backwards starts within the text, holds characters
/// of its class only, and has a character outside the class or nothing before
/// it.
pub proof fn lemma_run_start_bounds(s: Seq<char>, class: CharClass, to: int)
    requires
        0 <= to <= s.len(),
    ensures
        0 <= run_start(s, class, to) <= to,
        forall|i: int| run_start(s, class, to) <= i < to ==> class.has(#[trigger] s[i]),
        0 < run_start(s, class, to) ==> !class.has(s[run_start(s, class, to) - 1]),
    decreases to,
{
    if 0 < to && class.has(s[to - 1]) {
        lemma_run_start_bounds(s, class, to - 1);
    }
}

/// What is left of a text without the white space at its ends is empty or
/// starts and ends with a character that is no white space.
pub proof fn lemma_trimmed_ends(s: Seq<char>)
    ensures
        trimmed(s).len() > 0 ==> !is_space(trimmed(s).first()) && !is_space(trimmed(s).last()),
{
    lemma_run_end_bounds(s, CharClass::Space, 0);
    lemma_run_start_bounds(s, CharClass::Space, s.len() as int);
}

/// The search for a class passes over characters outside the class only, and
/// ends at a character of the class or at the end of the text.
pub proof fn lemma_next_in_bounds(s: Seq<char>, class: CharClass, from: int)
    requires
        0 <= from <= s.len(),
    ensures
        from <= next_in(s, class, from) <= s.len(),
        forall|i: int| from <= i < next_in(s, class, from) ==> !class.has(#[trigger] s[i]),
        next_in(s, class, from) < s.len() ==> class.has(s[next_in(s, class, from)]),
    decreases s.len() - from,
{
    if from < s.len() && !class.has(s[from]) {
        lemma_next_in_bounds(s, class, from + 1);
    }
}

/// A text has at least one piece.
pub proof fn lemma_split_nonempty(s: Seq<char>, sep: char)
    ensures
        split_at(s, sep).len() >= 1,
    decreases s.len(),
{
    if s.len() > 0 {
        lemma_split_nonempty(s.drop_last(), sep);
    }
}

/// The upper-case form of `c`.
pub fn to_upper(c: char) -> (r: char)
    ensures
        r == upper(c),
{
    if c >= 'a' && c <= 'z' {
        let n: u8 = c as u8;
        let m: u8 = n - 32;
        m as char
    } else {
        c
    }
}

/// `s` in upper case.
pub fn to_upper_all(s: &Vec<char>) -> (r: Vec<char>)
    ensures
        r@ == upper_seq(s@),
{
    let mut r: Vec<char> = Vec::new();
    let mut i: usize = 0;
    while i < s.len()
        invariant
            i <= s.len(),
            r@ == upper_seq(s@.take(i as int)),
        decreases s.len() - i,
    {
        r.push(to_upper(s[i]));
        i = i + 1;
    }
    r
}

/// The end of the run of `class` characters that starts at `from`.
pub fn skip_run(s: &Vec<char>, class: CharClass, from: usize) -> (to: usize)
    requires
        from <= s.len(),
    ensures
        to == run_end(s@, class, from as int),
        from <= to <= s.len(),
{
    let mut i: usize = from;
    while i < s.len() && class.contains(s[i])
        invariant
            from <= i <= s.len(),
            run_end(s@, class, i as int) == run_end(s@, class, from as int),
        decreases s.len() - i,
    {
        i = i + 1;
    }
    i
}

/// The start of the run of `class` characters that ends at `to`.
pub fn skip_run_back(s: &Vec<char>, class: CharClass, to: usize) -> (from: usize)
    requires
        to <= s.len(),
    ensures
        from == run_start(s@, class, to as int),
        from <= to,
{
    let mut i: usize = to;
    while i > 0 && class.contains(s[i - 1])
        invariant
            i <= to <= s.len(),
            run_start(s@, class, i as int) == run_start(s@, class, to as int),
        decreases i,
    {
        i = i - 1;
    }
    i
}

/// The first position at or after `from` that holds a `class` character.
pub fn find_class(s: &Vec<char>, class: CharClass, from: usize) -> (at: usize)
    requires
        from <= s.len(),
    ensures
        at == next_in(s@, class, from as int),
        from <= at <= s.len(),
{
    let mut i: usize = from;
    while i < s.len() && !class.contains(s[i])
        invariant
            from <= i <= s.len(),
            next_in(s@, class, i as int) == next_in(s@, class, from as int),
        decreases s.len() - i,
    {
        i = i + 1;
    }
    i
}

/// A copy of the characters of `s` from `from` up to `to`.
pub fn copy_range(s: &Vec<char>, from: usize, to: usize) -> (r: Vec<char>)
    requires
        from <= to <= s.len(),
    ensures
        r@ == s@.subrange(from as int, to as int),
{
    let mut r: Vec<char> = Vec::new();
    let mut i: usize = from;
    while i < to
        invariant
            from <= i <= to <= s.len(),
            r@ == s@.subrange(from as int, i as int),
        decreases to - i,
    {
        r.push(s[i]);
        i = i + 1;
    }
    r
}

/// `s` without the white space at its two ends.
pub fn trim(s: &Vec<char>) -> (r: Vec<char>)
    ensures
        r@ == trimmed(s@),
{
    let a = skip_run(s, CharClass::Space, 0);
    let b = skip_run_back(s, CharClass::Space, s.len());
    if a < b {
        copy_range(s, a, b)
    } else {
        Vec::new()
    }
}

/// The pieces of `s` between the occurrences of `sep`.
pub fn split(s: &Vec<char>, sep: char) -> (parts: Vec<Vec<char>>)
    ensures
        views(parts@) == split_at(s@, sep),
        parts.len() >= 1,
{
    let mut parts: Vec<Vec<char>> = Vec::new();
    let mut cur: Vec<char> = Vec::new();
    let mut i: usize = 0;
    while i < s.len()
        invariant
            i <= s.len(),
            views(parts@).push(cur@) == split_at(s@.take(i as int), sep),
        decreases s.len() - i,
    {
        let c = s[i];
        assert(s@.take(i + 1).drop_last() =~= s@.take(i as int));
        if c == sep {
            parts.push(cur);
            cur = Vec::new();
        } else {
            cur.push(c);
        }
        i = i + 1;
    }
    assert(s@.take(s.len() as int) =~= s@);
    parts.push(cur);
    parts
}

/// Whether `a` and `b` hold the same characters.
pub fn same_chars(a: &Vec<char>, b: &Vec<char>) -> (same: bool)
    ensures
        same == (a@ == b@),
{
    if a.len() != b.len() {
        return false;
    }
    let mut i: usize = 0;
    while i < a.len()
        invariant
            i <= a.len(),
            a.len() == b.len(),
            a@.take(i as int) == b@.take(i as int),
        decreases a.len() - i,
    {
        if a[i] != b[i] {
            return false;
        }
        i = i + 1;
    }
    assert(a@.take(a.len() as int) =~= a@);
    assert(b@.take(b.len() as int) =~= b@);
    true
}

/// The characters of `s`, in order.
pub fn to_chars(s: &str) -> (v: Vec<char>)
    ensures
        v@ == s@,
{
    let mut v: Vec<char> = Vec::new();
    for c in it: s.chars()
        invariant
            v@ == it.seq().take(it.index() as int),
            it.seq() == s@,
    {
        v.push(c);
    }
    v
}

/// Whether `s` spells the word `word`.
pub fn spells(s: &Vec<char>, word: &str) -> (b: bool)
    ensures
        b == (s@ == word@),
{
    let w = to_chars(word);
    same_chars(s, &w)
}

/// `String::push`: the string afterwards is the string before with `c` at its
/// end.
#[verifier::external_body]
fn push_char(s: &mut String, c: char)
    ensures
        final(s)@ == old(s)@.push(c),
{
    s.push(c)
}

/// The string that holds the characters of `v`.
pub fn to_string(v: &Vec<char>) -> (s: String)
    ensures
        s@ == v@,
{
    let mut s = String::new();
    let mut i: usize = 0;
    while i < v.len()
        invariant
            i <= v.len(),
            s@ == v@.take(i as int),
        decreases v.len() - i,
    {
        push_char(&mut s, v[i]);
        i = i + 1;
    }
    s
}

} // verus!
