//! Parsing a script: a reader over its characters, the lexical pieces
//! (strings with escapes, numbers, addresses, fenced fields), and the
//! statement grammar with `{ ... }` blocks.
//!
//! Each parsing function is specified by a spec function over the script
//! text and a position; on success the spec gives the value read and the
//! position after it.
use vstd::prelude::*;

use crate::address_range::{Address, AddressRange};
use crate::compiled_regex::{regex_compiles, CompiledRegex};
use crate::parser::parsecommand::{Command, CommandView};
use crate::parser::{
    accepts_flag, command_name_of, lookup_command, multi_line_build, no_argument_build,
    single_line_build, substitution_like_build, CommandParsingSpec, Parser, ParserError,
    ParserErrorView, ParserState, ParserStateView, SubstitutionLikeSpec,
};
use crate::program::{
    label_lookup, AddressRangeView, AddressView, BlockTypeView, BlockView, ProgramView, SedProgram,
};
use crate::text::{
    char_is_ascii_space, char_is_digit, chars_of, digit_value, is_ascii_space, is_digit,
};

verus! {

/// A script being read, one character at a time.
pub struct ScriptReader {
    chars: Vec<char>,
    pos: usize,
}

/// The character of `t` at `i`, if any.
pub open spec fn char_at(t: Seq<char>, i: int) -> Option<char> {
    if 0 <= i < t.len() {
        Some(t[i])
    } else {
        None
    }
}

impl ScriptReader {
    /// The reader never runs past the end of the script.
    #[verifier::type_invariant]
    spec fn reader_in_bounds(self) -> bool {
        self.pos <= self.chars.len()
    }

    /// The whole script.
    pub closed spec fn text(&self) -> Seq<char> {
        self.chars@
    }

    /// How many characters have been read.
    pub closed spec fn pos(&self) -> int {
        self.pos as int
    }

    /// A reader at the start of `src`.
    pub fn new(src: &str) -> (r: Self)
        ensures
            r.text() == src@,
            r.pos() == 0,
    {
        ScriptReader { chars: chars_of(src), pos: 0 }
    }

    /// The next character, without reading it.
    pub fn peek(&self) -> (r: Option<char>)
        ensures
            r == char_at(self.text(), self.pos()),
    {
        if self.pos < self.chars.len() {
            Some(self.chars[self.pos])
        } else {
            None
        }
    }

    /// Reads the next character.
    pub fn next(&mut self) -> (r: Option<char>)
        ensures
            r == char_at(old(self).text(), old(self).pos()),
            final(self).text() == old(self).text(),
            final(self).pos() == if r is Some {
                old(self).pos() + 1
            } else {
                old(self).pos()
            },
    {
        if self.pos < self.chars.len() {
            let c = self.chars[self.pos];
            self.pos = self.pos + 1;
            Some(c)
        } else {
            None
        }
    }

    /// Reads the next character if it is `c`.
    pub fn next_if_eq(&mut self, c: char) -> (r: bool)
        ensures
            r == (char_at(old(self).text(), old(self).pos()) == Some(c)),
            final(self).text() == old(self).text(),
            final(self).pos() == if r {
                old(self).pos() + 1
            } else {
                old(self).pos()
            },
    {
        if self.pos < self.chars.len() && self.chars[self.pos] == c {
            self.pos = self.pos + 1;
            true
        } else {
            false
        }
    }
}

/// Where a string argument ends.
#[derive(Debug, Clone, Copy, PartialEq, Eq)]
pub enum StringEnd {
    /// At the given fence character.
    Fence(char),
    /// At a newline.
    Line,
    /// At a newline, `;` or `}`.
    LineOrCommand,
}

/// Whether `c` ends a string of kind `e`.
pub open spec fn is_end(e: StringEnd, c: char) -> bool {
    match e {
        StringEnd::Fence(f) => c == f,
        StringEnd::Line => c == '\n',
        StringEnd::LineOrCommand => c == '\n' || c == ';' || c == '}',
    }
}

fn is_end_exec(e: StringEnd, c: char) -> (r: bool)
    ensures
        r == is_end(e, c),
{
    match e {
        StringEnd::Fence(f) => c == f,
        StringEnd::Line => c == '\n',
        StringEnd::LineOrCommand => c == '\n' || c == ';' || c == '}',
    }
}

/// Reading a string of kind `e` from `i` (just after a backslash if
/// `escaped`), with `acc` read so far: whether an unescaped end character
/// was found, the string, and the position after the end character (or the
/// end of the text). Escapes: `\n` and an escaped newline give a newline,
/// `\r` and `\t` give carriage return and tab, an escaped end character
/// gives itself; any other escaped character keeps its backslash.
pub open spec fn scan_string(t: Seq<char>, i: int, e: StringEnd, escaped: bool, acc: Seq<char>) -> (bool, Seq<char>, int)
    decreases t.len() - i,
{
    if i < 0 || i >= t.len() {
        (false, acc, i)
    } else {
        let c = t[i];
        if escaped {
            if c == 'n' || c == '\n' {
                scan_string(t, i + 1, e, false, acc.push('\n'))
            } else if c == 'r' {
                scan_string(t, i + 1, e, false, acc.push('\r'))
            } else if c == 't' {
                scan_string(t, i + 1, e, false, acc.push('\t'))
            } else if is_end(e, c) {
                scan_string(t, i + 1, e, false, acc.push(c))
            } else {
                scan_string(t, i + 1, e, false, acc.push('\\').push(c))
            }
        } else if is_end(e, c) {
            (true, acc, i + 1)
        } else if c == '\\' {
            scan_string(t, i + 1, e, true, acc)
        } else {
            scan_string(t, i + 1, e, false, acc.push(c))
        }
    }
}

/// [`scan_string`] from a fresh start.
pub open spec fn string_until_end(t: Seq<char>, i: int, e: StringEnd) -> (bool, Seq<char>, int) {
    scan_string(t, i, e, false, seq![])
}

proof fn lemma_scan_string_bounds(t: Seq<char>, i: int, e: StringEnd, escaped: bool, acc: Seq<char>)
    requires
        0 <= i <= t.len(),
    ensures
        ({
            let (ok, s, k) = scan_string(t, i, e, escaped, acc);
            &&& i <= k <= t.len()
            &&& ok ==> i < k && is_end(e, t[k - 1])
            &&& !ok ==> k == t.len()
        }),
    decreases t.len() - i,
{
    if i < t.len() {
        let c = t[i];
        if escaped {
            if c == 'n' || c == '\n' {
                lemma_scan_string_bounds(t, i + 1, e, false, acc.push('\n'));
            } else if c == 'r' {
                lemma_scan_string_bounds(t, i + 1, e, false, acc.push('\r'));
            } else if c == 't' {
                lemma_scan_string_bounds(t, i + 1, e, false, acc.push('\t'));
            } else if is_end(e, c) {
                lemma_scan_string_bounds(t, i + 1, e, false, acc.push(c));
            } else {
                lemma_scan_string_bounds(t, i + 1, e, false, acc.push('\\').push(c));
            }
        } else if is_end(e, c) {
        } else if c == '\\' {
            lemma_scan_string_bounds(t, i + 1, e, true, acc);
        } else {
            lemma_scan_string_bounds(t, i + 1, e, false, acc.push(c));
        }
    }
}

/// An escaped character other than `n`, a newline, `r`, `t` and the end
/// character keeps its backslash: reading a backslash followed by such a
/// character `c` adds both the backslash and `c` (so two backslashes are
/// read as two backslashes).
pub proof fn lemma_escape_keeps_backslash(t: Seq<char>, i: int, e: StringEnd, acc: Seq<char>)
    requires
        0 <= i,
        i + 1 < t.len(),
        t[i] == '\\',
        !is_end(e, '\\'),
        t[i + 1] != 'n' && t[i + 1] != '\n' && t[i + 1] != 'r' && t[i + 1] != 't',
        !is_end(e, t[i + 1]),
    ensures
        scan_string(t, i, e, false, acc) == scan_string(t, i + 2, e, false, acc + seq!['\\', t[i + 1]]),
{
    assert(scan_string(t, i, e, false, acc) == scan_string(t, i + 1, e, true, acc));
    assert(acc.push('\\').push(t[i + 1]) =~= acc + seq!['\\', t[i + 1]]);
}

/// The other escapes: a backslash followed by `n` or a newline reads as a
/// newline, by `r` as a carriage return, by `t` as a tab, and by the end
/// character as that character, which then does not end the string.
pub proof fn lemma_escape_translations(t: Seq<char>, i: int, e: StringEnd, acc: Seq<char>)
    requires
        0 <= i,
        i + 1 < t.len(),
        t[i] == '\\',
        !is_end(e, '\\'),
    ensures
        (t[i + 1] == 'n' || t[i + 1] == '\n') ==> scan_string(t, i, e, false, acc) == scan_string(
            t,
            i + 2,
            e,
            false,
            acc.push('\n'),
        ),
        t[i + 1] == 'r' ==> scan_string(t, i, e, false, acc) == scan_string(t, i + 2, e, false, acc.push('\r')),
        t[i + 1] == 't' ==> scan_string(t, i, e, false, acc) == scan_string(t, i + 2, e, false, acc.push('\t')),
        (is_end(e, t[i + 1]) && t[i + 1] != 'n' && t[i + 1] != '\n' && t[i + 1] != 'r' && t[i + 1] != 't')
            ==> scan_string(t, i, e, false, acc) == scan_string(t, i + 2, e, false, acc.push(t[i + 1])),
{
    assert(scan_string(t, i, e, false, acc) == scan_string(t, i + 1, e, true, acc));
}

/// Text without backslashes and end characters is read unchanged, up to
/// and including the end character that follows it.
pub proof fn lemma_plain_text_read_as_is(t: Seq<char>, i: int, e: StringEnd, acc: Seq<char>, k: int)
    requires
        0 <= i <= k < t.len(),
        is_end(e, t[k]),
        forall|j: int| i <= j < k ==> t[j] != '\\' && !is_end(e, #[trigger] t[j]),
    ensures
        scan_string(t, i, e, false, acc) == (true, acc + t.subrange(i, k), k + 1),
    decreases k - i,
{
    if i < k {
        lemma_plain_text_read_as_is(t, i + 1, e, acc.push(t[i]), k);
        assert(acc.push(t[i]) + t.subrange(i + 1, k) =~= acc + t.subrange(i, k));
    } else {
        assert(acc + t.subrange(i, k) =~= acc);
    }
}

/// Reads a string up to an unescaped end character of kind `is_end`,
/// translating escapes (see [`scan_string`]); the end character is
/// consumed. If the text ends first, the string read so far comes back as
/// an error with `UnexpectedEof`, and the reader is at the end of the text.
pub fn parse_string_until_end(chars: &mut ScriptReader, is_end: StringEnd) -> (r: Result<
    String,
    (String, ParserError),
>)
    ensures
        final(chars).text() == old(chars).text(),
        ({
            let (ok, s, k) = string_until_end(old(chars).text(), old(chars).pos(), is_end);
            &&& final(chars).pos() == k
            &&& match r {
                Ok(v) => ok && v@ == s,
                Err((v, e)) => !ok && v@ == s && e@ == ParserErrorView::UnexpectedEof,
            }
        }),
        r is Ok ==> old(chars).pos() < final(chars).pos() && crate::parser::parse::is_end(
            is_end,
            old(chars).text()[final(chars).pos() - 1],
        ),
        r is Err ==> final(chars).pos() == old(chars).text().len(),
        final(chars).pos() <= final(chars).text().len(),
{
    proof {
        use_type_invariant(&*chars);
    }
    let ghost t = chars.text();
    let ghost start = chars.pos();
    proof {
        lemma_scan_string_bounds(t, start, is_end, false, seq![]);
    }
    let mut src = String::new();
    let mut escaped = false;
    loop
        invariant
            chars.text() == t,
            t == old(chars).text(),
            start == old(chars).pos(),
            start <= chars.pos() <= t.len(),
            scan_string(t, chars.pos(), is_end, escaped, src@) == string_until_end(t, start, is_end),
        decreases t.len() - chars.pos(),
    {
        match chars.next() {
            None => {
                return Err((src, ParserError::UnexpectedEof));
            },
            Some(c) => {
                if escaped && (c == 'n' || c == '\n') {
                    src.push('\n');
                } else if escaped && c == 'r' {
                    src.push('\r');
                } else if escaped && c == 't' {
                    src.push('\t');
                } else if escaped && is_end_exec(is_end, c) {
                    src.push(c);
                } else if escaped {
                    src.push('\\');
                    src.push(c);
                } else if is_end_exec(is_end, c) {
                    return Ok(src);
                } else if c == '\\' {
                    escaped = true;
                    continue;
                } else {
                    src.push(c);
                }
                escaped = false;
            },
        }
    }
}

/// Position after the spaces, tabs, newlines and carriage returns at `i`.
pub open spec fn skip_inline_ws_spec(t: Seq<char>, i: int) -> int
    decreases t.len() - i,
{
    if 0 <= i < t.len() && (t[i] == ' ' || t[i] == '\t' || t[i] == '\n' || t[i] == '\r') {
        skip_inline_ws_spec(t, i + 1)
    } else {
        i
    }
}

/// Position after the rest of the line at `i`, its newline included.
pub open spec fn skip_line_spec(t: Seq<char>, i: int) -> int
    decreases t.len() - i,
{
    if i < 0 || i >= t.len() {
        i
    } else if t[i] == '\n' {
        i + 1
    } else {
        skip_line_spec(t, i + 1)
    }
}

proof fn lemma_skip_inline_ws_bounds(t: Seq<char>, i: int)
    ensures
        i <= skip_inline_ws_spec(t, i),
        0 <= i <= t.len() ==> skip_inline_ws_spec(t, i) <= t.len(),
    decreases t.len() - i,
{
    if 0 <= i < t.len() && (t[i] == ' ' || t[i] == '\t' || t[i] == '\n' || t[i] == '\r') {
        lemma_skip_inline_ws_bounds(t, i + 1);
    }
}

pub proof fn lemma_skip_line_bounds(t: Seq<char>, i: int)
    ensures
        i <= skip_line_spec(t, i),
        0 <= i < t.len() ==> i < skip_line_spec(t, i) <= t.len(),
    decreases t.len() - i,
{
    if 0 <= i < t.len() && t[i] != '\n' {
        lemma_skip_line_bounds(t, i + 1);
    }
}

/// Position after the whitespace, `;` and comment lines at `i`.
pub open spec fn skip_ws_semicolons_spec(t: Seq<char>, i: int) -> int
    decreases t.len() - i,
{
    if i < 0 || i >= t.len() {
        i
    } else if t[i] == ' ' || t[i] == '\t' || t[i] == '\n' || t[i] == '\r' || t[i] == ';' {
        skip_ws_semicolons_spec(t, i + 1)
    } else if t[i] == '#' {
        proof {
            lemma_skip_line_bounds(t, i);
        }
        skip_ws_semicolons_spec(t, skip_line_spec(t, i))
    } else {
        i
    }
}

proof fn lemma_skip_ws_semicolons_bounds(t: Seq<char>, i: int)
    ensures
        i <= skip_ws_semicolons_spec(t, i),
        0 <= i <= t.len() ==> skip_ws_semicolons_spec(t, i) <= t.len(),
    decreases t.len() - i,
{
    if 0 <= i < t.len() {
        if t[i] == ' ' || t[i] == '\t' || t[i] == '\n' || t[i] == '\r' || t[i] == ';' {
            lemma_skip_ws_semicolons_bounds(t, i + 1);
        } else if t[i] == '#' {
            lemma_skip_line_bounds(t, i);
            lemma_skip_ws_semicolons_bounds(t, skip_line_spec(t, i));
        }
    }
}

/// Skips spaces, tabs, newlines and carriage returns.
pub fn skip_inline_ws(chars: &mut ScriptReader)
    ensures
        final(chars).text() == old(chars).text(),
        final(chars).pos() == skip_inline_ws_spec(old(chars).text(), old(chars).pos()),
        final(chars).pos() <= final(chars).text().len(),
{
    proof {
        use_type_invariant(&*chars);
    }
    let ghost t = chars.text();
    let ghost start = chars.pos();
    loop
        invariant
            chars.text() == t,
            t == old(chars).text(),
            start == old(chars).pos(),
            0 <= chars.pos() <= t.len(),
            skip_inline_ws_spec(t, chars.pos()) == skip_inline_ws_spec(t, start),
        decreases t.len() - chars.pos(),
    {
        match chars.peek() {
            Some(c) => {
                if c == ' ' || c == '\t' || c == '\n' || c == '\r' {
                    chars.next();
                } else {
                    return;
                }
            },
            None => {
                return;
            },
        }
    }
}

/// Skips the rest of the line (a comment), its newline included.
pub fn skip_line(chars: &mut ScriptReader)
    ensures
        final(chars).text() == old(chars).text(),
        final(chars).pos() == skip_line_spec(old(chars).text(), old(chars).pos()),
        final(chars).pos() <= final(chars).text().len(),
{
    proof {
        use_type_invariant(&*chars);
    }
    let ghost t = chars.text();
    let ghost start = chars.pos();
    loop
        invariant
            chars.text() == t,
            t == old(chars).text(),
            start == old(chars).pos(),
            0 <= chars.pos() <= t.len(),
            skip_line_spec(t, chars.pos()) == skip_line_spec(t, start),
        decreases t.len() - chars.pos(),
    {
        match chars.next() {
            Some(c) => {
                if c == '\n' {
                    return;
                }
            },
            None => {
                return;
            },
        }
    }
}

/// Skips whitespace, `;` separators and comment lines.
pub fn skip_ws_semicolons(chars: &mut ScriptReader)
    ensures
        final(chars).text() == old(chars).text(),
        final(chars).pos() == skip_ws_semicolons_spec(old(chars).text(), old(chars).pos()),
        final(chars).pos() <= final(chars).text().len(),
{
    proof {
        use_type_invariant(&*chars);
    }
    let ghost t = chars.text();
    let ghost start = chars.pos();
    loop
        invariant
            chars.text() == t,
            t == old(chars).text(),
            start == old(chars).pos(),
            0 <= chars.pos() <= t.len(),
            skip_ws_semicolons_spec(t, chars.pos()) == skip_ws_semicolons_spec(t, start),
        decreases t.len() - chars.pos(),
    {
        match chars.peek() {
            Some(c) => {
                if c == ' ' || c == '\t' || c == '\n' || c == '\r' || c == ';' {
                    chars.next();
                } else if c == '#' {
                    proof {
                        lemma_skip_line_bounds(t, chars.pos());
                    }
                    skip_line(chars);
                } else {
                    return;
                }
            },
            None => {
                return;
            },
        }
    }
}

/// The number written with the digits `t[i..j]`.
pub open spec fn digits_value(t: Seq<char>, i: int, j: int) -> nat
    decreases j - i,
{
    if j <= i {
        0
    } else {
        digits_value(t, i, j - 1) * 10 + digit_value(t[j - 1])
    }
}

/// Position of the first non-digit at or after `i`.
pub open spec fn digits_end(t: Seq<char>, i: int) -> int
    decreases t.len() - i,
{
    if 0 <= i < t.len() && is_digit(t[i]) {
        digits_end(t, i + 1)
    } else {
        i
    }
}

proof fn lemma_digits_end_bounds(t: Seq<char>, i: int)
    requires
        0 <= i <= t.len(),
    ensures
        i <= digits_end(t, i) <= t.len(),
        forall|k: int| i <= k < digits_end(t, i) ==> is_digit(#[trigger] t[k]),
    decreases t.len() - i,
{
    if i < t.len() && is_digit(t[i]) {
        lemma_digits_end_bounds(t, i + 1);
    }
}

proof fn lemma_digits_value_monotone(t: Seq<char>, i: int, j: int)
    requires
        i <= j,
        forall|k: int| i <= k < j + 1 ==> is_digit(#[trigger] t[k]),
    ensures
        digits_value(t, i, j) <= digits_value(t, i, j + 1),
{
}

/// Reading a decimal number at `i`: its value and the position after its
/// digits; `BadNumberLiteral` if there is no digit there or the number does
/// not fit in a `usize`.
pub open spec fn parse_usize_spec(t: Seq<char>, i: int) -> Result<(usize, int), ParserErrorView> {
    if !(char_at(t, i) matches Some(c) && is_digit(c)) {
        Err(ParserErrorView::BadNumberLiteral)
    } else if digits_value(t, i, digits_end(t, i)) > usize::MAX {
        Err(ParserErrorView::BadNumberLiteral)
    } else {
        Ok((digits_value(t, i, digits_end(t, i)) as usize, digits_end(t, i)))
    }
}

/// Where the reader stops when [`parse_usize_spec`] fails at `i`: nothing is
/// consumed when no digit starts the input; a number too large for a
/// `usize` is consumed whole.
pub open spec fn parse_usize_error_stop(t: Seq<char>, i: int) -> int {
    if char_at(t, i) matches Some(c) && is_digit(c) {
        digits_end(t, i)
    } else {
        i
    }
}

/// Reads a decimal number (see [`parse_usize_spec`]).
pub fn parse_usize(chars: &mut ScriptReader) -> (r: Result<usize, ParserError>)
    ensures
        final(chars).text() == old(chars).text(),
        old(chars).pos() <= final(chars).pos() <= final(chars).text().len(),
        match parse_usize_spec(old(chars).text(), old(chars).pos()) {
            Ok((v, k)) => r == Ok::<usize, ParserError>(v) && final(chars).pos() == k,
            Err(e) => r matches Err(e2) && e2@ == e,
        },
        r is Err ==> final(chars).pos() == parse_usize_error_stop(old(chars).text(), old(chars).pos()),
{
    proof {
        use_type_invariant(&*chars);
    }
    let ghost t = chars.text();
    let ghost start = chars.pos();
    match chars.peek() {
        Some(c) => {
            if !char_is_digit(c) {
                return Err(ParserError::BadNumberLiteral);
            }
        },
        None => {
            return Err(ParserError::BadNumberLiteral);
        },
    }
    proof {
        lemma_digits_end_bounds(t, start);
    }
    let mut n: usize = 0;
    let mut overflow = false;
    loop
        invariant
            chars.text() == t,
            t == old(chars).text(),
            start == old(chars).pos(),
            start <= chars.pos() <= digits_end(t, start),
            digits_end(t, start) <= t.len(),
            forall|k: int| start <= k < digits_end(t, start) ==> is_digit(#[trigger] t[k]),
            !overflow ==> n == digits_value(t, start, chars.pos()),
            overflow ==> digits_value(t, start, chars.pos()) > usize::MAX,
        ensures
            chars.text() == t,
            chars.pos() == digits_end(t, start),
            !overflow ==> n == digits_value(t, start, chars.pos()),
            overflow ==> digits_value(t, start, chars.pos()) > usize::MAX,
        decreases t.len() - chars.pos(),
    {
        let p = chars.pos;
        match chars.peek() {
            Some(c) => {
                if !char_is_digit(c) {
                    assert(digits_end(t, start) == chars.pos()) by {
                        if chars.pos() < digits_end(t, start) {
                            assert(is_digit(t[chars.pos()]));
                        }
                    }
                    break ;
                }
                proof {
                    if chars.pos() == digits_end(t, start) {
                        lemma_digits_end_at(t, start);
                    }
                }
                chars.next();
                let d = (c as u32 - '0' as u32) as usize;
                assert(d == digit_value(c));
                proof {
                    lemma_digits_value_monotone(t, start, p as int);
                }
                if !overflow {
                    if n > (usize::MAX - d) / 10 {
                        overflow = true;
                        assert(n * 10 + d > usize::MAX) by (nonlinear_arith)
                            requires
                                n > (usize::MAX - d) / 10,
                                d <= 9,
                        ;
                    } else {
                        assert(n * 10 + d <= usize::MAX) by (nonlinear_arith)
                            requires
                                n <= (usize::MAX - d) / 10,
                                d <= 9,
                        ;
                        n = n * 10 + d;
                    }
                }
            },
            None => {
                assert(digits_end(t, start) == chars.pos());
                break ;
            },
        }
    }
    if overflow {
        Err(ParserError::BadNumberLiteral)
    } else {
        Ok(n)
    }
}

proof fn lemma_digits_end_at(t: Seq<char>, i: int)
    requires
        0 <= i <= t.len(),
    ensures
        !(0 <= digits_end(t, i) < t.len() && is_digit(t[digits_end(t, i)])),
    decreases t.len() - i,
{
    if 0 <= i < t.len() && is_digit(t[i]) {
        lemma_digits_end_at(t, i + 1);
    }
}

/// Reading a fenced field at `i`: rejects a backslash or whitespace fence,
/// and a field that runs into the end of the text.
pub open spec fn fenced_field(t: Seq<char>, i: int, fence: char) -> Result<(Seq<char>, int), ParserErrorView> {
    if fence == '\\' {
        Err(ParserErrorView::BackslashFence)
    } else if is_ascii_space(fence) {
        Err(ParserErrorView::WhitespaceFence)
    } else {
        let (ok, s, k) = string_until_end(t, i, StringEnd::Fence(fence));
        if ok {
            Ok((s, k))
        } else {
            Err(ParserErrorView::UnexpectedEof)
        }
    }
}

/// Where the reader stops after [`fenced_field`] at `i`: it stays at `i`
/// when the fence is rejected, and otherwise stops where the string scan
/// stops (past the closing fence, or at the end of the text).
pub open spec fn fenced_field_stop(t: Seq<char>, i: int, fence: char) -> int {
    if fence == '\\' || is_ascii_space(fence) {
        i
    } else {
        string_until_end(t, i, StringEnd::Fence(fence)).2
    }
}

/// Reads one field of a substitution-like command, up to the fence
/// (see [`fenced_field`] and [`fenced_field_stop`]).
pub fn parse_substitution_style_argument(chars: &mut ScriptReader, fence: char) -> (r: Result<
    String,
    ParserError,
>)
    ensures
        final(chars).text() == old(chars).text(),
        old(chars).pos() <= final(chars).pos() <= final(chars).text().len(),
        match fenced_field(old(chars).text(), old(chars).pos(), fence) {
            Ok((s, k)) => r matches Ok(v) && v@ == s && final(chars).pos() == k,
            Err(e) => r matches Err(e2) && e2@ == e,
        },
        final(chars).pos() == fenced_field_stop(old(chars).text(), old(chars).pos(), fence),
{
    proof {
        use_type_invariant(&*chars);
    }
    if fence == '\\' {
        return Err(ParserError::BackslashFence);
    }
    if char_is_ascii_space(fence) {
        return Err(ParserError::WhitespaceFence);
    }
    match parse_string_until_end(chars, StringEnd::Fence(fence)) {
        Ok(s) => Ok(s),
        Err((_, e)) => Err(e),
    }
}

/// Reading a regex at `i` between fences: the pattern must be non-empty
/// and compile.
pub open spec fn fenced_regex(t: Seq<char>, i: int, fence: char) -> Result<(AddressView, int), ParserErrorView> {
    match fenced_field(t, i, fence) {
        Err(e) => Err(e),
        Ok((s, k)) => if s.len() == 0 {
            Err(ParserErrorView::EmptyRegularExpression)
        } else if !regex_compiles(s, false) {
            Err(ParserErrorView::RegexError)
        } else {
            Ok((AddressView::Regex { pattern: s, case_insensitive: false }, k))
        },
    }
}

fn parse_regex_with_fences(chars: &mut ScriptReader, fence: char) -> (r: Result<Address, ParserError>)
    ensures
        final(chars).text() == old(chars).text(),
        old(chars).pos() <= final(chars).pos() <= final(chars).text().len(),
        match fenced_regex(old(chars).text(), old(chars).pos(), fence) {
            Ok((a, k)) => r matches Ok(a2) && a2@ == a && final(chars).pos() == k,
            Err(e) => r matches Err(e2) && e2@ == e,
        },
{
    proof {
        use_type_invariant(&*chars);
    }
    let src = parse_substitution_style_argument(chars, fence)?;
    if src.as_str().is_empty() {
        return Err(ParserError::EmptyRegularExpression);
    }
    match CompiledRegex::new(src.as_str(), false) {
        Ok(re) => Ok(Address::Regex(re)),
        Err(e) => Err(ParserError::RegexError(e)),
    }
}

/// Reading an address at `i`: a line number, `first~step`, `$`, `/re/` or
/// `\cREc`; `None` (reading nothing) if none starts there.
pub open spec fn parse_address_spec(t: Seq<char>, i: int) -> Result<(Option<AddressView>, int), ParserErrorView> {
    match char_at(t, i) {
        Some(c) => if is_digit(c) {
            match parse_usize_spec(t, i) {
                Err(e) => Err(e),
                Ok((n, j)) => if char_at(t, j) == Some('~') {
                    match parse_usize_spec(t, j + 1) {
                        Err(e) => Err(e),
                        Ok((step, k)) => Ok((Some(AddressView::Step { first: n, step }), k)),
                    }
                } else {
                    Ok((Some(AddressView::LineNumber(n)), j))
                },
            }
        } else if c == '$' {
            Ok((Some(AddressView::Last), i + 1))
        } else if c == '/' {
            match fenced_regex(t, i + 1, '/') {
                Err(e) => Err(e),
                Ok((a, k)) => Ok((Some(a), k)),
            }
        } else if c == '\\' {
            match char_at(t, i + 1) {
                None => Err(ParserErrorView::UnexpectedEof),
                Some(d) => match fenced_regex(t, i + 2, d) {
                    Err(e) => Err(e),
                    Ok((a, k)) => Ok((Some(a), k)),
                },
            }
        } else {
            Ok((None, i))
        },
        None => Ok((None, i)),
    }
}

fn parse_address(chars: &mut ScriptReader) -> (r: Result<Option<Address>, ParserError>)
    ensures
        final(chars).text() == old(chars).text(),
        old(chars).pos() <= final(chars).pos() <= final(chars).text().len(),
        match parse_address_spec(old(chars).text(), old(chars).pos()) {
            Ok((a, k)) => final(chars).pos() == k && match r {
                Ok(Some(a2)) => a == Some(a2@),
                Ok(None) => a is None,
                Err(_) => false,
            },
            Err(e) => r matches Err(e2) && e2@ == e,
        },
{
    proof {
        use_type_invariant(&*chars);
    }
    match chars.peek() {
        Some(c) => {
            if char_is_digit(c) {
                let n = parse_usize(chars)?;
                if chars.next_if_eq('~') {
                    let step = parse_usize(chars)?;
                    Ok(Some(Address::Step { first: n, step }))
                } else {
                    Ok(Some(Address::LineNumber(n)))
                }
            } else if c == '$' {
                chars.next();
                Ok(Some(Address::Last))
            } else if c == '/' {
                chars.next();
                let a = parse_regex_with_fences(chars, '/')?;
                Ok(Some(a))
            } else if c == '\\' {
                chars.next();
                let delim = match chars.next() {
                    Some(d) => d,
                    None => {
                        return Err(ParserError::UnexpectedEof);
                    },
                };
                let a = parse_regex_with_fences(chars, delim)?;
                Ok(Some(a))
            } else {
                Ok(None)
            }
        },
        None => Ok(None),
    }
}

/// Reading an address range at `i`: nothing (every line), one address, or
/// two separated by `,`; either may be followed by `!`.
pub open spec fn parse_address_range_spec(t: Seq<char>, i: int) -> Result<(AddressRangeView, int), ParserErrorView> {
    match parse_address_spec(t, i) {
        Err(e) => Err(e),
        Ok((None, j)) => Ok((AddressRangeView::All, j)),
        Ok((Some(a), j)) => if char_at(t, j) != Some(',') {
            let negated = char_at(t, j) == Some('!');
            Ok((AddressRangeView::Single { addr: a, negated }, if negated {
                j + 1
            } else {
                j
            }))
        } else {
            match parse_address_spec(t, j + 1) {
                Err(e) => Err(e),
                Ok((None, _)) => Err(ParserErrorView::IncompleteAddressRange),
                Ok((Some(b), k)) => {
                    let negated = char_at(t, k) == Some('!');
                    Ok((AddressRangeView::Range { start: a, end: b, negated }, if negated {
                        k + 1
                    } else {
                        k
                    }))
                },
            }
        },
    }
}

fn parse_address_range(chars: &mut ScriptReader) -> (r: Result<AddressRange, ParserError>)
    ensures
        final(chars).text() == old(chars).text(),
        old(chars).pos() <= final(chars).pos() <= final(chars).text().len(),
        match parse_address_range_spec(old(chars).text(), old(chars).pos()) {
            Ok((a, k)) => r matches Ok(a2) && a2@ == a && final(chars).pos() == k,
            Err(e) => r matches Err(e2) && e2@ == e,
        },
{
    proof {
        use_type_invariant(&*chars);
    }
    let addr = match parse_address(chars)? {
        Some(a) => a,
        None => {
            return Ok(AddressRange::All);
        },
    };
    if !chars.next_if_eq(',') {
        let negated = chars.next_if_eq('!');
        return Ok(AddressRange::Single { addr, negated });
    }
    let addr_end = match parse_address(chars)? {
        Some(a) => a,
        None => {
            return Err(ParserError::IncompleteAddressRange);
        },
    };
    let negated = chars.next_if_eq('!');
    Ok(AddressRange::Range { start: addr, end: addr_end, negated })
}

/// Reading the argument of a single-line command at `i`: leading
/// whitespace is skipped, and the string runs to a newline, `;` or `}`
/// (or the end of the text).
pub open spec fn singleline_spec(t: Seq<char>, i: int) -> (Seq<char>, int) {
    let (ok, s, k) = string_until_end(t, skip_inline_ws_spec(t, i), StringEnd::LineOrCommand);
    (s, k)
}

/// Reading the argument of a multi-line command at `i`: leading
/// whitespace is skipped, and the string runs to a newline (or the end of
/// the text).
pub open spec fn multiline_spec(t: Seq<char>, i: int) -> (Seq<char>, int) {
    let (ok, s, k) = string_until_end(t, skip_inline_ws_spec(t, i), StringEnd::Line);
    (s, k)
}

/// Reads the argument of a single-line command (see [`singleline_spec`]).
pub fn parse_singleline_string(chars: &mut ScriptReader) -> (r: String)
    ensures
        final(chars).text() == old(chars).text(),
        old(chars).pos() <= final(chars).pos() <= final(chars).text().len(),
        (r@, final(chars).pos()) == singleline_spec(old(chars).text(), old(chars).pos()),
{
    proof {
        use_type_invariant(&*chars);
    }
    proof {
        lemma_skip_inline_ws_bounds(chars.text(), chars.pos());
    }
    skip_inline_ws(chars);
    match parse_string_until_end(chars, StringEnd::LineOrCommand) {
        Ok(s) => s,
        Err((s, _)) => s,
    }
}

/// Reads the argument of a multi-line command (see [`multiline_spec`]).
pub fn parse_multiline_string(chars: &mut ScriptReader) -> (r: String)
    ensures
        final(chars).text() == old(chars).text(),
        old(chars).pos() <= final(chars).pos() <= final(chars).text().len(),
        (r@, final(chars).pos()) == multiline_spec(old(chars).text(), old(chars).pos()),
{
    proof {
        use_type_invariant(&*chars);
    }
    proof {
        lemma_skip_inline_ws_bounds(chars.text(), chars.pos());
    }
    skip_inline_ws(chars);
    match parse_string_until_end(chars, StringEnd::Line) {
        Ok(s) => s,
        Err((s, _)) => s,
    }
}

/// Reading `count` fenced fields at `i`.
pub open spec fn parse_fields_spec(t: Seq<char>, i: int, fence: char, count: nat) -> Result<(Seq<Seq<char>>, int), ParserErrorView>
    decreases count,
{
    if count == 0 {
        Ok((seq![], i))
    } else {
        match parse_fields_spec(t, i, fence, (count - 1) as nat) {
            Err(e) => Err(e),
            Ok((fs, j)) => match fenced_field(t, j, fence) {
                Err(e) => Err(e),
                Ok((s, k)) => Ok((fs.push(s), k)),
            },
        }
    }
}

/// Reading the flags of a substitution-like command at `i`, up to `;`,
/// whitespace or the end of the text; `acc` holds the flags read so far.
pub open spec fn parse_flags_spec(kind: SubstitutionLikeSpec, t: Seq<char>, i: int, acc: Seq<char>) -> Result<(Seq<char>, int), ParserErrorView>
    decreases t.len() - i,
{
    match char_at(t, i) {
        None => Ok((acc, i)),
        Some(c) => if c == ';' || is_ascii_space(c) {
            Ok((acc, i))
        } else if accepts_flag(kind, c) {
            parse_flags_spec(kind, t, i + 1, acc.push(c))
        } else {
            Err(ParserErrorView::UnknownFlag(command_name_of(kind), c))
        },
    }
}

/// Reading a substitution-like command at `i` (just after its letter): the
/// fence, two fenced fields, the flags; then the command is built.
pub open spec fn parse_substitution_spec(kind: SubstitutionLikeSpec, t: Seq<char>, i: int) -> Result<(CommandView, int), ParserErrorView> {
    match char_at(t, i) {
        None => Err(ParserErrorView::UnexpectedEof),
        Some(fence) => match parse_fields_spec(t, i + 1, fence, 2) {
            Err(e) => Err(e),
            Ok((fields, j)) => match parse_flags_spec(kind, t, j, seq![]) {
                Err(e) => Err(e),
                Ok((flags, k)) => match substitution_like_build(kind, fields, flags) {
                    Ok(c) => Ok((c, k)),
                    Err(e) => Err(e),
                },
            },
        },
    }
}

/// Reading the rest of a command whose letter is parsed as `cps`, at `i`:
/// the parser state after, the command, and the position after it.
pub open spec fn build_command_spec(cps: CommandParsingSpec, t: Seq<char>, i: int, st: ParserStateView) -> Result<(ParserStateView, CommandView, int), ParserErrorView> {
    match cps {
        CommandParsingSpec::SubstitutionLike(k) => match parse_substitution_spec(k, t, i) {
            Err(e) => Err(e),
            Ok((c, m)) => Ok((st, c, m)),
        },
        CommandParsingSpec::SingleLineArgument(k) => {
            let (arg, m) = singleline_spec(t, i);
            match single_line_build(k, st, arg) {
                Ok((st2, c)) => Ok((st2, c, m)),
                Err(e) => Err(e),
            }
        },
        CommandParsingSpec::MultilineArgument(k) => {
            let (arg, m) = multiline_spec(t, i);
            Ok((st, multi_line_build(k, arg), m))
        },
        CommandParsingSpec::NoArgument(k) => Ok((st, no_argument_build(k), i)),
    }
}

/// The complement of a range (`All` stays `All`).
pub open spec fn inverted_view(f: AddressRangeView) -> AddressRangeView {
    match f {
        AddressRangeView::All => AddressRangeView::All,
        AddressRangeView::Single { addr, negated } => AddressRangeView::Single { addr, negated: !negated },
        AddressRangeView::Range { start, end, negated } => AddressRangeView::Range { start, end, negated: !negated },
    }
}

/// Reading statements at `i` into the state `st`, with the command letters
/// of `table`, until the end of the text or an unmatched `}` (which is not
/// read): the state after and the position reached.
///
/// Each statement is an optional address range followed by a command or a
/// `{ ... }` block. A block under a range other than `All` is preceded by a
/// jump, taken on the lines the complement of the range selects, to the
/// statement after the block.
pub open spec fn parse_block_spec(table: Seq<(char, CommandParsingSpec)>, t: Seq<char>, i: int, st: ParserStateView) -> Result<(ParserStateView, int), ParserErrorView>
    decreases t.len() - i,
{
    if i < 0 || i > t.len() {
        Ok((st, i))
    } else {
        let j = skip_ws_semicolons_spec(t, i);
        if j >= t.len() || j < i {
            Ok((st, j))
        } else {
            match parse_address_range_spec(t, j) {
                Err(e) => Err(e),
                Ok((addr, k)) => {
                    let k2 = skip_inline_ws_spec(t, k);
                    if !(j <= k <= k2) {
                        Err(ParserErrorView::UnexpectedEof)
                    } else if k2 >= t.len() {
                        Ok((st, k2))
                    } else {
                        let c = t[k2];
                        if c == '{' {
                            if addr is All {
                                match parse_block_spec(table, t, k2 + 1, st) {
                                    Err(e) => Err(e),
                                    Ok((st2, m)) => if char_at(t, m) == Some('}') && k2 < m {
                                        parse_block_spec(table, t, m + 1, st2)
                                    } else {
                                        Err(ParserErrorView::UnexpectedEof)
                                    },
                                }
                            } else {
                                let g = inverted_view(addr);
                                let jidx = st.stmts.len() as int;
                                let st1 = ParserStateView {
                                    stmts: st.stmts.push(BlockView { command: BlockTypeView::BlockBranch(0), filter: g }),
                                    ..st
                                };
                                match parse_block_spec(table, t, k2 + 1, st1) {
                                    Err(e) => Err(e),
                                    Ok((st2, m)) => {
                                        let st3 = ParserStateView {
                                            stmts: st2.stmts.update(
                                                jidx,
                                                BlockView {
                                                    command: BlockTypeView::BlockBranch(st2.stmts.len() as usize),
                                                    filter: g,
                                                },
                                            ),
                                            ..st2
                                        };
                                        if char_at(t, m) == Some('}') && k2 < m {
                                            parse_block_spec(table, t, m + 1, st3)
                                        } else {
                                            Err(ParserErrorView::UnexpectedEof)
                                        }
                                    },
                                }
                            }
                        } else if c == '#' {
                            proof {
                                lemma_skip_line_bounds(t, k2);
                            }
                            parse_block_spec(table, t, skip_line_spec(t, k2), st)
                        } else if c == '}' {
                            Ok((st, k2))
                        } else {
                            match lookup_command(table, c) {
                                None => Err(ParserErrorView::UnknownCommand(c)),
                                Some(cps) => match build_command_spec(cps, t, k2 + 1, st) {
                                    Err(e) => Err(e),
                                    Ok((st2, cmd, m)) => if k2 < m <= t.len() {
                                        parse_block_spec(
                                            table,
                                            t,
                                            m,
                                            ParserStateView {
                                                stmts: st2.stmts.push(
                                                    BlockView { command: BlockTypeView::SingleCommand(cmd), filter: addr },
                                                ),
                                                ..st2
                                            },
                                        )
                                    } else {
                                        Err(ParserErrorView::UnexpectedEof)
                                    },
                                },
                            }
                        }
                    }
                },
            }
        }
    }
}

/// The program the script `t` denotes with the command letters of `table`:
/// statements up to the end of the text; a `}` left over is an
/// `UnmatchedBracket` error.
pub open spec fn parse_script_spec(table: Seq<(char, CommandParsingSpec)>, t: Seq<char>) -> Result<ProgramView, ParserErrorView> {
    match parse_block_spec(table, t, 0, ParserStateView { labels: seq![], stmts: seq![] }) {
        Err(e) => Err(e),
        Ok((st, m)) => if char_at(t, m) is Some {
            Err(ParserErrorView::UnmatchedBracket)
        } else {
            Ok(ProgramView { commands: st.stmts, labels: st.labels })
        },
    }
}

fn parse_substitution(kind: SubstitutionLikeSpec, chars: &mut ScriptReader, parse_state: &mut ParserState) -> (r: Result<Command, ParserError>)
    ensures
        final(chars).text() == old(chars).text(),
        old(chars).pos() <= final(chars).pos() <= final(chars).text().len(),
        final(parse_state)@.stmts == old(parse_state)@.stmts,
        match parse_substitution_spec(kind, old(chars).text(), old(chars).pos()) {
            Ok((c, k)) => r matches Ok(c2) && c2.view() == c && final(chars).pos() == k
                && *final(parse_state) == *old(parse_state),
            Err(e) => r matches Err(e2) && e2@ == e,
        },
{
    proof {
        use_type_invariant(&*chars);
    }
    let ghost t = chars.text();
    let fence = match chars.next() {
        Some(f) => f,
        None => {
            return Err(ParserError::UnexpectedEof);
        },
    };
    let ghost after_fence = chars.pos();
    let argc = kind.field_count();
    let mut fields: Vec<String> = Vec::new();
    let mut idx: usize = 0;
    assert(fields.deep_view() =~= seq![]);
    while idx < argc
        invariant
            chars.text() == t,
            t == old(chars).text(),
            after_fence == old(chars).pos() + 1,
            argc == 2,
            idx <= argc,
            fields@.len() == idx,
            *parse_state == *old(parse_state),
            char_at(t, old(chars).pos()) == Some(fence),
            after_fence <= chars.pos() <= t.len(),
            parse_fields_spec(t, after_fence, fence, idx as nat) == Ok::<(Seq<Seq<char>>, int), ParserErrorView>((fields.deep_view(), chars.pos())),
        decreases argc - idx,
    {
        let ghost before = fields.deep_view();
        assert(before.len() == idx);
        let f = parse_substitution_style_argument(chars, fence);
        match f {
            Ok(s) => {
                fields.push(s);
                assert(fields.deep_view() =~= before.push(fields@[idx as int]@));
            },
            Err(e) => {
                assert(parse_fields_spec(t, after_fence, fence, (idx + 1) as nat) is Err);
                proof {
                    lemma_parse_fields_stuck(t, after_fence, fence, (idx + 1) as nat, 2);
                }
                return Err(e);
            },
        }
        idx = idx + 1;
    }
    let ghost flags_start = chars.pos();
    let mut flags = String::new();
    assert(flags@ =~= seq![]);
    loop
        invariant
            chars.text() == t,
            t == old(chars).text(),
            flags_start <= chars.pos() <= t.len(),
            old(chars).pos() <= flags_start,
            parse_fields_spec(t, after_fence, fence, 2) == Ok::<(Seq<Seq<char>>, int), ParserErrorView>((fields.deep_view(), flags_start)),
            parse_flags_spec(kind, t, chars.pos(), flags@) == parse_flags_spec(kind, t, flags_start, seq![]),
            after_fence == old(chars).pos() + 1,
            char_at(t, old(chars).pos()) == Some(fence),
            *parse_state == *old(parse_state),
        ensures
            chars.text() == t,
            flags_start <= chars.pos() <= t.len(),
            parse_flags_spec(kind, t, flags_start, seq![]) == Ok::<(Seq<char>, int), ParserErrorView>((flags@, chars.pos())),
        decreases t.len() - chars.pos(),
    {
        match chars.peek() {
            None => {
                break ;
            },
            Some(flag) => {
                if flag == ';' || char_is_ascii_space(flag) {
                    break ;
                } else if kind.check_flag(flag) {
                    flags.push(flag);
                    chars.next();
                } else {
                    return Err(ParserError::UnknownFlag(kind.command_name(), flag));
                }
            },
        }
    }
    kind.build(parse_state, fields, flags)
}

proof fn lemma_parse_fields_stuck(t: Seq<char>, i: int, fence: char, k: nat, n: nat)
    requires
        k <= n,
        parse_fields_spec(t, i, fence, k) is Err,
    ensures
        parse_fields_spec(t, i, fence, n) == parse_fields_spec(t, i, fence, k),
    decreases n - k,
{
    if k < n {
        lemma_parse_fields_stuck(t, i, fence, k, (n - 1) as nat);
    }
}

fn build_command(cps: CommandParsingSpec, chars: &mut ScriptReader, parse_state: &mut ParserState) -> (r: Result<Command, ParserError>)
    ensures
        final(chars).text() == old(chars).text(),
        old(chars).pos() <= final(chars).pos() <= final(chars).text().len(),
        final(parse_state)@.stmts == old(parse_state)@.stmts,
        match build_command_spec(cps, old(chars).text(), old(chars).pos(), old(parse_state)@) {
            Ok((st, c, k)) => r matches Ok(c2) && c2.view() == c && final(chars).pos() == k
                && final(parse_state)@ == st,
            Err(e) => r matches Err(e2) && e2@ == e,
        },
{
    proof {
        use_type_invariant(&*chars);
    }
    match cps {
        CommandParsingSpec::SubstitutionLike(kind) => parse_substitution(kind, chars, parse_state),
        CommandParsingSpec::SingleLineArgument(kind) => {
            let arg = parse_singleline_string(chars);
            kind.build(parse_state, arg)
        },
        CommandParsingSpec::MultilineArgument(kind) => {
            let arg = parse_multiline_string(chars);
            kind.build(parse_state, arg)
        },
        CommandParsingSpec::NoArgument(kind) => kind.build(parse_state),
    }
}

#[verifier::rlimit(50)]
fn parse_block(chars: &mut ScriptReader, commands: &Parser, parse_state: &mut ParserState) -> (r: Result<(), ParserError>)
    ensures
        final(chars).text() == old(chars).text(),
        old(chars).pos() <= final(chars).pos() <= final(chars).text().len(),
        final(parse_state)@.stmts.len() >= old(parse_state)@.stmts.len(),
        forall|i: int|
            0 <= i < old(parse_state)@.stmts.len() ==> final(parse_state)@.stmts[i] == old(
                parse_state,
            )@.stmts[i],
        match parse_block_spec(commands.table(), old(chars).text(), old(chars).pos(), old(parse_state)@) {
            Ok((st, k)) => r is Ok && final(parse_state)@ == st && final(chars).pos() == k,
            Err(e) => r matches Err(e2) && e2@ == e,
        },
    decreases old(chars).text().len() - old(chars).pos(),
{
    proof {
        use_type_invariant(&*chars);
    }
    let ghost t = chars.text();
    let ghost start = chars.pos();
    let ghost table = commands.table();
    let ghost target = parse_block_spec(table, t, start, parse_state@);
    loop
        invariant
            chars.text() == t,
            t == old(chars).text(),
            start == old(chars).pos(),
            table == commands.table(),
            target == parse_block_spec(table, t, start, old(parse_state)@),
            start <= chars.pos() <= t.len(),
            parse_state@.stmts.len() >= old(parse_state)@.stmts.len(),
            forall|i: int|
                0 <= i < old(parse_state)@.stmts.len() ==> parse_state@.stmts[i] == old(
                    parse_state,
                )@.stmts[i],
            parse_block_spec(table, t, chars.pos(), parse_state@) == target,
        decreases t.len() - chars.pos(),
    {
        let ghost pos0 = chars.pos();
        let ghost st0 = parse_state@;
        proof {
            lemma_skip_ws_semicolons_bounds(t, pos0);
        }
        skip_ws_semicolons(chars);
        if chars.peek().is_none() {
            return Ok(());
        }
        let ghost j = chars.pos();
        let addr = parse_address_range(chars)?;
        let ghost k = chars.pos();
        proof {
            lemma_skip_inline_ws_bounds(t, k);
        }
        skip_inline_ws(chars);
        let ghost k2 = chars.pos();
        match chars.peek() {
            None => {
                return Ok(());
            },
            Some(c) => {
                if c == '{' {
                    chars.next();
                    let is_all = match addr {
                        AddressRange::All => true,
                        _ => false,
                    };
                    if is_all {
                        parse_block(chars, commands, parse_state)?;
                        if !chars.next_if_eq('}') {
                            return Err(ParserError::UnexpectedEof);
                        }
                        assert(parse_block_spec(table, t, chars.pos(), parse_state@) == target);
                    } else {
                        let inv = match addr.inverted() {
                            Some(a) => a,
                            None => {
                                return Err(ParserError::UnexpectedEof);
                            },
                        };
                        assert(inv@ == inverted_view(addr@));
                        let jump_idx = parse_state.open_guard(inv);
                        let ghost guard_block = parse_state@.stmts[jump_idx as int];
                        parse_block(chars, commands, parse_state)?;
                        assert(parse_state@.stmts[jump_idx as int] == guard_block);
                        parse_state.close_guard(jump_idx);
                        if !chars.next_if_eq('}') {
                            return Err(ParserError::UnexpectedEof);
                        }
                        assert(parse_block_spec(table, t, chars.pos(), parse_state@) == target);
                    }
                } else if c == '#' {
                    proof {
                        lemma_skip_line_bounds(t, k2);
                    }
                    skip_line(chars);
                    assert(parse_block_spec(table, t, chars.pos(), parse_state@) == target);
                } else if c == '}' {
                    return Ok(());
                } else {
                    match commands.lookup(c) {
                        None => {
                            return Err(ParserError::UnknownCommand(c));
                        },
                        Some(cps) => {
                            chars.next();
                            let cmd = build_command(cps, chars, parse_state)?;
                            parse_state.push(cmd, addr);
                            assert(parse_block_spec(table, t, chars.pos(), parse_state@) == target);
                        },
                    }
                }
            },
        }
    }
}

fn parse_script(chars: &mut ScriptReader, commands: &Parser) -> (r: Result<SedProgram, ParserError>)
    requires
        old(chars).pos() == 0,
    ensures
        match parse_script_spec(commands.table(), old(chars).text()) {
            Ok(p) => r matches Ok(prog) && prog@ == p,
            Err(e) => r matches Err(e2) && e2@ == e,
        },
{
    let mut parser_state = ParserState::new();
    parse_block(chars, commands, &mut parser_state)?;
    if chars.peek().is_some() {
        return Err(ParserError::UnmatchedBracket);
    }
    Ok(parser_state.into_program())
}

impl Parser {
    /// Parses a script into a program (see [`parse_script_spec`]).
    pub fn parse(&self, src: &str) -> (r: Result<SedProgram, ParserError>)
        ensures
            match parse_script_spec(self.table(), src@) {
                Ok(p) => r matches Ok(prog) && prog@ == p,
                Err(e) => r matches Err(e2) && e2@ == e,
            },
    {
        let mut reader = ScriptReader::new(src);
        parse_script(&mut reader, self)
    }
}

/// The parser state is consistent: no label is defined twice, and every
/// label and every jump points at most one past the last statement.
pub open spec fn state_valid(st: ParserStateView) -> bool {
    &&& forall|a: int, b: int|
        0 <= a < b < st.labels.len() ==> #[trigger] st.labels[a].0 != #[trigger] st.labels[b].0
    &&& forall|a: int| 0 <= a < st.labels.len() ==> #[trigger] st.labels[a].1 <= st.stmts.len()
    &&& forall|a: int|
        0 <= a < st.stmts.len() ==> match #[trigger] st.stmts[a].command {
            BlockTypeView::BlockBranch(target) => target <= st.stmts.len(),
            _ => true,
        }
}

/// Every block jump points past its own statement, unless its target is
/// not known yet (target 0).
pub open spec fn jumps_forward_or_pending(stmts: Seq<BlockView>) -> bool {
    forall|a: int|
        0 <= a < stmts.len() ==> match #[trigger] stmts[a].command {
            BlockTypeView::BlockBranch(target) => target == 0 || a < target,
            _ => true,
        }
}

/// No statement from `lo` on is a block jump still waiting for its target.
pub open spec fn jumps_settled(stmts: Seq<BlockView>, lo: int) -> bool {
    forall|a: int|
        lo <= a < stmts.len() ==> match #[trigger] stmts[a].command {
            BlockTypeView::BlockBranch(target) => target != 0,
            _ => true,
        }
}

proof fn lemma_label_lookup_none(labels: Seq<(Seq<char>, usize)>, name: Seq<char>)
    requires
        label_lookup(labels, name) is None,
    ensures
        forall|a: int| 0 <= a < labels.len() ==> #[trigger] labels[a].0 != name,
    decreases labels.len(),
{
    if labels.len() > 0 {
        lemma_label_lookup_none(labels.drop_first(), name);
        assert forall|a: int| 0 <= a < labels.len() implies #[trigger] labels[a].0 != name by {
            if a > 0 {
                assert(labels[a] == labels.drop_first()[a - 1]);
            }
        }
    }
}

proof fn lemma_build_command_valid(cps: CommandParsingSpec, t: Seq<char>, i: int, st: ParserStateView)
    requires
        state_valid(st),
    ensures
        build_command_spec(cps, t, i, st) matches Ok((st2, _, _)) ==> state_valid(st2) && st2.stmts
            == st.stmts,
{
    if let CommandParsingSpec::SingleLineArgument(k) = cps {
        if k == crate::parser::SingleLineSpec::Label {
            let (arg, m) = singleline_spec(t, i);
            if label_lookup(st.labels, arg) is None {
                lemma_label_lookup_none(st.labels, arg);
                let st2 = ParserStateView {
                    labels: st.labels.push((arg, st.stmts.len() as usize)),
                    stmts: st.stmts,
                };
                assert forall|a: int, b: int|
                    0 <= a < b < st2.labels.len() implies #[trigger] st2.labels[a].0
                    != #[trigger] st2.labels[b].0 by {
                    if b == st.labels.len() {
                        assert(st.labels[a].0 != arg);
                    } else {
                        assert(st.labels[a] == st2.labels[a] && st.labels[b] == st2.labels[b]);
                    }
                }
                assert forall|a: int| 0 <= a < st2.labels.len() implies #[trigger] st2.labels[a].1
                    <= st2.stmts.len() by {
                    if a < st.labels.len() {
                        assert(st.labels[a] == st2.labels[a]);
                    }
                }
            }
        }
    }
}

proof fn lemma_push_valid(st: ParserStateView, b: BlockView)
    requires
        state_valid(st),
        match b.command {
            BlockTypeView::BlockBranch(target) => target <= st.stmts.len() + 1,
            _ => true,
        },
    ensures
        state_valid(ParserStateView { stmts: st.stmts.push(b), ..st }),
{
    let st2 = ParserStateView { stmts: st.stmts.push(b), ..st };
    assert forall|a: int| 0 <= a < st2.stmts.len() implies match #[trigger] st2.stmts[a].command {
        BlockTypeView::BlockBranch(target) => target <= st2.stmts.len(),
        _ => true,
    } by {
        if a < st.stmts.len() {
            assert(st2.stmts[a] == st.stmts[a]);
        }
    }
}

/// Statements read into a consistent state leave it consistent and only
/// add statements (those already there stay as they were); while the
/// statements fit in a `usize`, every block jump they add has its target
/// set and points past itself.
#[verifier::rlimit(40)]
pub proof fn lemma_parse_block_valid(table: Seq<(char, CommandParsingSpec)>, t: Seq<char>, i: int, st: ParserStateView)
    requires
        state_valid(st),
    ensures
        parse_block_spec(table, t, i, st) matches Ok((st2, _)) ==> {
            &&& state_valid(st2)
            &&& keeps_prefix(st2.stmts, st.stmts)
            &&& settles(st.stmts, st2.stmts)
        },
    decreases t.len() - i,
{
    if 0 <= i <= t.len() {
        let j = skip_ws_semicolons_spec(t, i);
        if j < t.len() && j >= i {
            if let Ok((addr, k)) = parse_address_range_spec(t, j) {
                let k2 = skip_inline_ws_spec(t, k);
                if j <= k <= k2 && k2 < t.len() {
                    let c = t[k2];
                    if c == '{' {
                        if addr is All {
                            lemma_parse_block_valid(table, t, k2 + 1, st);
                            if let Ok((st2, m)) = parse_block_spec(table, t, k2 + 1, st) {
                                if char_at(t, m) == Some('}') && k2 < m {
                                    lemma_parse_block_valid(table, t, m + 1, st2);
                                    if let Ok((st4, _)) = parse_block_spec(table, t, m + 1, st2) {
                                        lemma_chain(st.stmts, st2.stmts, st4.stmts);
                                    }
                                }
                            }
                        } else {
                            let g = inverted_view(addr);
                            let jidx = st.stmts.len() as int;
                            let st1 = ParserStateView {
                                stmts: st.stmts.push(BlockView { command: BlockTypeView::BlockBranch(0), filter: g }),
                                ..st
                            };
                            lemma_push_valid(st, BlockView { command: BlockTypeView::BlockBranch(0), filter: g });
                            lemma_push_forward(st.stmts, BlockView { command: BlockTypeView::BlockBranch(0), filter: g });
                            lemma_parse_block_valid(table, t, k2 + 1, st1);
                            if let Ok((st2, m)) = parse_block_spec(table, t, k2 + 1, st1) {
                                let st3 = ParserStateView {
                                    stmts: st2.stmts.update(
                                        jidx,
                                        BlockView {
                                            command: BlockTypeView::BlockBranch(st2.stmts.len() as usize),
                                            filter: g,
                                        },
                                    ),
                                    ..st2
                                };
                                assert(state_valid(st3)) by {
                                    assert forall|a: int| 0 <= a < st3.stmts.len() implies match #[trigger] st3.stmts[a].command {
                                        BlockTypeView::BlockBranch(target) => target <= st3.stmts.len(),
                                        _ => true,
                                    } by {
                                        if a != jidx {
                                            assert(st3.stmts[a] == st2.stmts[a]);
                                        }
                                    }
                                }
                                lemma_guard_settles(st.stmts, g, st2.stmts);
                                if char_at(t, m) == Some('}') && k2 < m {
                                    lemma_parse_block_valid(table, t, m + 1, st3);
                                    if let Ok((st4, _)) = parse_block_spec(table, t, m + 1, st3) {
                                        lemma_chain(st.stmts, st3.stmts, st4.stmts);
                                    }
                                }
                            }
                        }
                    } else if c == '#' {
                        lemma_skip_line_bounds(t, k2);
                        lemma_parse_block_valid(table, t, skip_line_spec(t, k2), st);
                    } else if c != '}' {
                        if let Some(cps) = lookup_command(table, c) {
                            lemma_build_command_valid(cps, t, k2 + 1, st);
                            if let Ok((st2, cmd, m)) = build_command_spec(cps, t, k2 + 1, st) {
                                if k2 < m <= t.len() {
                                    let b = BlockView { command: BlockTypeView::SingleCommand(cmd), filter: addr };
                                    let st3 = ParserStateView { stmts: st2.stmts.push(b), ..st2 };
                                    lemma_push_valid(st2, b);
                                    lemma_push_forward(st2.stmts, b);
                                    lemma_parse_block_valid(table, t, m, st3);
                                    if let Ok((st4, _)) = parse_block_spec(table, t, m, st3) {
                                        lemma_chain(st.stmts, st3.stmts, st4.stmts);
                                    }
                                }
                            }
                        }
                    }
                }
            }
        }
    }
}

/// Opening a guard at the end of `s0`, parsing a block into `s2` that
/// keeps and settles what it adds, and closing the guard, keeps `s0` and
/// settles the rest.
proof fn lemma_guard_settles(s0: Seq<BlockView>, g: AddressRangeView, s2: Seq<BlockView>)
    requires
        keeps_prefix(s2, s0.push(BlockView { command: BlockTypeView::BlockBranch(0), filter: g })),
        settles(s0.push(BlockView { command: BlockTypeView::BlockBranch(0), filter: g }), s2),
    ensures
        ({
            let s3 = s2.update(
                s0.len() as int,
                BlockView { command: BlockTypeView::BlockBranch(s2.len() as usize), filter: g },
            );
            keeps_prefix(s3, s0) && settles(s0, s3)
        }),
{
    let b = BlockView { command: BlockTypeView::BlockBranch(0), filter: g };
    let s1 = s0.push(b);
    let jidx = s0.len() as int;
    let s3 = s2.update(jidx, BlockView { command: BlockTypeView::BlockBranch(s2.len() as usize), filter: g });
    lemma_push_forward(s0, b);
    assert forall|a: int| 0 <= a < s0.len() implies #[trigger] s3[a] == s0[a] by {
        assert(s2[a] == s1[a]);
    }
    if jumps_forward_or_pending(s0) && s3.len() <= usize::MAX {
        assert forall|a: int| 0 <= a < s3.len() implies match #[trigger] s3[a].command {
            BlockTypeView::BlockBranch(target) => target == 0 || a < target,
            _ => true,
        } by {
            if a != jidx {
                assert(s3[a] == s2[a]);
            }
        }
        assert forall|a: int| jidx <= a < s3.len() implies match #[trigger] s3[a].command {
            BlockTypeView::BlockBranch(target) => target != 0,
            _ => true,
        } by {
            if a != jidx {
                assert(s3[a] == s2[a]);
            }
        }
    }
}

/// Appending a statement that is no block jump, or one still waiting for
/// its target, keeps jumps pointing forward, and sets no new pending jump
/// when it is a command.
proof fn lemma_push_forward(stmts: Seq<BlockView>, b: BlockView)
    requires
        match b.command {
            BlockTypeView::BlockBranch(target) => target == 0,
            _ => true,
        },
    ensures
        jumps_forward_or_pending(stmts) ==> jumps_forward_or_pending(stmts.push(b)),
        jumps_settled(stmts.push(b), stmts.len() as int) <==> b.command is SingleCommand,
{
    let s2 = stmts.push(b);
    assert(s2[stmts.len() as int] == b);
    if jumps_forward_or_pending(stmts) {
        assert forall|a: int| 0 <= a < s2.len() implies match #[trigger] s2[a].command {
            BlockTypeView::BlockBranch(target) => target == 0 || a < target,
            _ => true,
        } by {
            if a < stmts.len() {
                assert(s2[a] == stmts[a]);
            }
        }
    }
}

/// `s` begins with the statements of `s0`.
pub open spec fn keeps_prefix(s: Seq<BlockView>, s0: Seq<BlockView>) -> bool {
    s0.len() <= s.len() && forall|a: int| 0 <= a < s0.len() ==> #[trigger] s[a] == s0[a]
}

/// What parsing a run of statements keeps, from `s0` to `s`, while the
/// statements fit in a `usize`: jumps point forward and the added ones
/// have their targets set.
pub open spec fn settles(s0: Seq<BlockView>, s: Seq<BlockView>) -> bool {
    (jumps_forward_or_pending(s0) && s.len() <= usize::MAX) ==> {
        &&& jumps_forward_or_pending(s)
        &&& jumps_settled(s, s0.len() as int)
    }
}

/// Two steps that each keep the statements before them and settle the
/// ones they add make one such step.
proof fn lemma_chain(s0: Seq<BlockView>, s1: Seq<BlockView>, s2: Seq<BlockView>)
    requires
        keeps_prefix(s1, s0),
        keeps_prefix(s2, s1),
        settles(s0, s1),
        settles(s1, s2),
    ensures
        keeps_prefix(s2, s0),
        settles(s0, s2),
{
    assert forall|a: int| 0 <= a < s0.len() implies #[trigger] s2[a] == s0[a] by {
        assert(s2[a] == s1[a]);
    }
    if jumps_forward_or_pending(s0) && s2.len() <= usize::MAX {
        assert forall|a: int| s0.len() <= a < s2.len() implies match #[trigger] s2[a].command {
            BlockTypeView::BlockBranch(target) => target != 0,
            _ => true,
        } by {
            if a < s1.len() {
                assert(s2[a] == s1[a]);
            }
        }
    }
}

impl ProgramView {
    /// Every label and every jump of the program points at most one past
    /// its last statement.
    pub open spec fn targets_in_range(self) -> bool {
        &&& forall|a: int| 0 <= a < self.labels.len() ==> #[trigger] self.labels[a].1 <= self.commands.len()
        &&& forall|a: int|
            0 <= a < self.commands.len() ==> match #[trigger] self.commands[a].command {
                BlockTypeView::BlockBranch(target) => target <= self.commands.len(),
                _ => true,
            }
    }
}

impl ProgramView {
    /// Every block jump points forward, past its own statement.
    pub open spec fn jumps_forward(self) -> bool {
        forall|a: int|
            0 <= a < self.commands.len() ==> match #[trigger] self.commands[a].command {
                BlockTypeView::BlockBranch(target) => a < target,
                _ => true,
            }
    }
}

/// A parsed program defines each label once, its labels and block jumps
/// all point inside the program or just past its end, and every block jump
/// points forward, past its own statement.
pub proof fn lemma_parsed_program_valid(table: Seq<(char, CommandParsingSpec)>, t: Seq<char>)
    ensures
        parse_script_spec(table, t) matches Ok(p) ==> p.labels_unique() && p.targets_in_range(),
        parse_script_spec(table, t) matches Ok(p) ==> (p.commands.len() <= usize::MAX ==> p.jumps_forward()),
{
    let st0 = ParserStateView { labels: seq![], stmts: seq![] };
    lemma_parse_block_valid(table, t, 0, st0);
    if let Ok((st, _)) = parse_block_spec(table, t, 0, st0) {
        if st.stmts.len() <= usize::MAX {
            assert(jumps_forward_or_pending(st0.stmts));
            assert forall|a: int| 0 <= a < st.stmts.len() implies match #[trigger] st.stmts[a].command {
                BlockTypeView::BlockBranch(target) => a < target,
                _ => true,
            } by {}
        }
    }
}

} // verus!
