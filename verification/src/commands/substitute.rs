//! `s/regex/replacement/flags`: replaces matches of a regex.
use vstd::prelude::*;

use crate::compiled_regex::{regex_captures, regex_compiles, CompiledRegex};
use crate::parser::parsecommand::{
    command_outcome, Command, CommandOutcome, CommandResult, CommandView, SedCommand,
    SubstitutionLikeCommandFactory,
};
use crate::parser::{ParserError, ParserErrorView, ParserState};
use crate::program::{SedLineInfo, SedLineState};
use crate::text::{chars_of, digit_value, is_digit, string_from, utf8_width};

verus! {

/// The capture spans of every match (see `regex_captures`).
pub type MatchSpans = Vec<Vec<Option<(usize, usize)>>>;

/// Where, in the literal text of a replacement, the text of a capture
/// group goes.
#[derive(Debug)]
struct SubstutionNode {
    insert_at: usize,
    capture_group: usize,
}

/// A parsed replacement: literal text, and the capture groups to insert
/// into it, in increasing order of position.
#[derive(Debug)]
pub struct SubstitutionTo(String, Vec<SubstutionNode>);

/// Abstract view of a replacement: its literal text, and for each
/// insertion, the offset in that text and the capture group number.
pub struct ReplacementView {
    pub text: Seq<char>,
    pub nodes: Seq<(nat, nat)>,
}

impl ReplacementView {
    /// Insertion offsets are in order and inside the text.
    pub open spec fn well_formed(self) -> bool {
        forall|i: int, j: int|
            #![trigger self.nodes[i], self.nodes[j]]
            0 <= i <= j < self.nodes.len() ==> self.nodes[i].0 <= self.nodes[j].0 <= self.text.len()
    }
}

impl SubstitutionTo {
    pub closed spec fn view(&self) -> ReplacementView {
        ReplacementView {
            text: self.0@,
            nodes: self.1@.map_values(|n: SubstutionNode| (n.insert_at as nat, n.capture_group as nat)),
        }
    }

    #[verifier::type_invariant]
    spec fn well_formed(&self) -> bool {
        self.view().well_formed()
    }
}

/// The replacement that `s` denotes: `\` followed by a digit inserts that
/// capture group; every other character is literal.
pub open spec fn parse_replacement(s: Seq<char>) -> ReplacementView {
    replacement_from(s, 0, seq![], seq![])
}

/// [`parse_replacement`] from index `i`, with `text` and `nodes` built so far.
pub open spec fn replacement_from(s: Seq<char>, i: int, text: Seq<char>, nodes: Seq<(nat, nat)>) -> ReplacementView
    decreases s.len() - i,
{
    if i < 0 || i >= s.len() {
        ReplacementView { text, nodes }
    } else if s[i] == '\\' && i + 1 < s.len() && is_digit(s[i + 1]) {
        replacement_from(s, i + 2, text, nodes.push((text.len(), digit_value(s[i + 1]))))
    } else {
        replacement_from(s, i + 1, text.push(s[i]), nodes)
    }
}

/// Splits a sed replacement into literal text and capture-group insertions.
pub fn parse_sed_style_replacement_string(s: &str) -> (r: SubstitutionTo)
    ensures
        r.view() == parse_replacement(s@),
{
    let v = chars_of(s);
    let mut text = String::new();
    let mut nodes: Vec<SubstutionNode> = Vec::new();
    let mut i: usize = 0;
    assert(nodes@.map_values(|n: SubstutionNode| (n.insert_at as nat, n.capture_group as nat)) =~= seq![]);
    assert(text@ =~= seq![]);
    while i < v.len()
        invariant
            i <= v@.len(),
            v@ == s@,
            replacement_from(s@, i as int, text@, nodes@.map_values(|n: SubstutionNode| (n.insert_at as nat, n.capture_group as nat)))
                == parse_replacement(s@),
            forall|a: int, b: int|
                #![trigger nodes@[a], nodes@[b]]
                0 <= a <= b < nodes@.len() ==> nodes@[a].insert_at <= nodes@[b].insert_at <= text@.len(),
            forall|a: int| 0 <= a < nodes@.len() ==> #[trigger] nodes@[a].insert_at <= text@.len(),
        decreases v.len() - i,
    {
        let ghost old_nodes = nodes@;
        if v[i] == '\\' && i + 1 < v.len() && crate::text::char_is_digit(v[i + 1]) {
            let d = v[i + 1];
            let g = (d as u32 - '0' as u32) as usize;
            let n = text.as_str().unicode_len();
            nodes.push(SubstutionNode { insert_at: n, capture_group: g });
            proof {
                assert(nodes@.map_values(|n: SubstutionNode| (n.insert_at as nat, n.capture_group as nat))
                    =~= old_nodes.map_values(|n: SubstutionNode| (n.insert_at as nat, n.capture_group as nat)).push(
                    (text@.len(), digit_value(d))));
            }
            i = i + 2;
        } else {
            text.push(v[i]);
            i = i + 1;
        }
    }
    let r = SubstitutionTo(text, nodes);
    r
}

/// The character index `k >= from` of `t` at which the UTF-8 encoding of
/// `t` has `b` bytes before it, given that it has `off` bytes before `from`.
pub open spec fn char_index_from(t: Seq<char>, b: int, from: int, off: int) -> Option<int>
    decreases t.len() - from,
{
    if off == b {
        Some(from)
    } else if off > b || from < 0 || from >= t.len() {
        None
    } else {
        char_index_from(t, b, from + 1, off + utf8_width(t[from]))
    }
}

/// The character index of `t` at byte offset `b` of its UTF-8 encoding.
pub open spec fn char_index_of_byte(t: Seq<char>, b: int) -> Option<int> {
    char_index_from(t, b, 0, 0)
}

/// A byte span of `t` as a span of character indices, if both ends fall on
/// character boundaries and are in order.
pub open spec fn char_span(t: Seq<char>, span: (usize, usize)) -> Option<(int, int)> {
    match (char_index_of_byte(t, span.0 as int), char_index_of_byte(t, span.1 as int)) {
        (Some(s), Some(e)) => if s <= e {
            Some((s, e))
        } else {
            None
        },
        _ => None,
    }
}

/// The text of group `g` of match `m` of `t` (empty if the group did not
/// take part).
pub open spec fn group_text(t: Seq<char>, m: Seq<Option<(usize, usize)>>, g: nat) -> Seq<char> {
    if g < m.len() {
        match m[g as int] {
            Some(span) => match char_span(t, span) {
                Some((s, e)) => t.subrange(s, e),
                None => seq![],
            },
            None => seq![],
        }
    } else {
        seq![]
    }
}

/// The first `j` insertions of `r` for match `m`: the text produced so far
/// and the offset of the literal text reached.
pub open spec fn expand_nodes(r: ReplacementView, t: Seq<char>, m: Seq<Option<(usize, usize)>>, j: nat) -> (Seq<char>, int)
    decreases j,
{
    if j == 0 {
        (seq![], 0)
    } else {
        let (acc, last) = expand_nodes(r, t, m, (j - 1) as nat);
        let node = r.nodes[j - 1];
        (acc + r.text.subrange(last, node.0 as int) + group_text(t, m, node.1), node.0 as int)
    }
}

/// The replacement text `r` produces for match `m` of `t`.
pub open spec fn expansion(r: ReplacementView, t: Seq<char>, m: Seq<Option<(usize, usize)>>) -> Seq<char> {
    let (acc, last) = expand_nodes(r, t, m, r.nodes.len());
    acc + r.text.subrange(last, r.text.len() as int)
}

/// Replacing the first `n` matches of `caps` in `t`: the text built up to
/// the end of match `n` and the index where it ends, or `None` if a match
/// span does not describe a place in `t` after the previous match.
pub open spec fn replace_matches(r: ReplacementView, t: Seq<char>, caps: Seq<Seq<Option<(usize, usize)>>>, n: nat) -> Option<(Seq<char>, int)>
    decreases n,
{
    if n == 0 {
        Some((seq![], 0))
    } else {
        match replace_matches(r, t, caps, (n - 1) as nat) {
            None => None,
            Some((acc, last)) => {
                let m = caps[n - 1];
                if m.len() > 0 && m[0] is Some {
                    match char_span(t, m[0]->0) {
                        Some((s, e)) => if last <= s {
                            Some((acc + t.subrange(last, s) + expansion(r, t, m), e))
                        } else {
                            None
                        },
                        None => None,
                    }
                } else {
                    None
                }
            },
        }
    }
}

/// The new text when the matches `caps` of `t` are replaced by `r` (all of
/// them if `all`, else the first): `None` when nothing matched (or when the
/// spans do not describe places in `t`).
pub open spec fn substitute_text(r: ReplacementView, t: Seq<char>, caps: Seq<Seq<Option<(usize, usize)>>>, all: bool) -> Option<Seq<char>> {
    if caps.len() == 0 {
        None
    } else {
        let n: nat = if all {
            caps.len()
        } else {
            1
        };
        match replace_matches(r, t, caps, n) {
            Some((acc, last)) => Some(acc + t.subrange(last, t.len() as int)),
            None => None,
        }
    }
}

/// The pattern space after `s/re/r/` (with the flag `all` for `g`), or
/// `None` if the regex does not match it.
pub open spec fn substitution_result(
    re: Seq<char>,
    case_insensitive: bool,
    r: ReplacementView,
    all: bool,
    pattern: Seq<char>,
) -> Option<Seq<char>> {
    substitute_text(r, pattern, regex_captures(re, case_insensitive, pattern), all)
}

/// The character index of `t` at byte offset `b`.
pub fn char_index_at_byte(t: &Vec<char>, b: usize) -> (r: Option<usize>)
    ensures
        match r {
            Some(k) => char_index_of_byte(t@, b as int) == Some(k as int),
            None => char_index_of_byte(t@, b as int) is None,
        },
{
    let mut k: usize = 0;
    let mut off: usize = 0;
    while off != b
        invariant
            k <= t@.len(),
            off <= b,
            char_index_from(t@, b as int, k as int, off as int) == char_index_of_byte(t@, b as int),
        decreases t@.len() - k,
    {
        if k >= t.len() {
            return None;
        }
        let w = crate::text::char_utf8_width(t[k]);
        if w > b - off {
            assert(char_index_from(t@, b as int, k + 1, off + w) is None);
            return None;
        }
        off = off + w;
        k = k + 1;
    }
    Some(k)
}

/// The span of `span` as character indices of `t`.
fn char_span_exec(t: &Vec<char>, span: (usize, usize)) -> (r: Option<(usize, usize)>)
    ensures
        match r {
            Some((s, e)) => char_span(t@, span) == Some((s as int, e as int)) && e <= t@.len(),
            None => char_span(t@, span) is None,
        },
{
    proof {
        lemma_char_index_bound(t@, span.1 as int, 0, 0);
    }
    match (char_index_at_byte(t, span.0), char_index_at_byte(t, span.1)) {
        (Some(s), Some(e)) => if s <= e {
            Some((s, e))
        } else {
            None
        },
        _ => None,
    }
}

proof fn lemma_char_index_bound(t: Seq<char>, b: int, from: int, off: int)
    requires
        0 <= from,
    ensures
        char_index_from(t, b, from, off) matches Some(k) ==> k <= t.len() || k == from,
    decreases t.len() - from,
{
    if off != b && !(off > b || from >= t.len()) {
        lemma_char_index_bound(t, b, from + 1, off + utf8_width(t[from]));
    }
}

/// Appends `t[lo..hi]` to `acc`.
fn push_range(acc: &mut Vec<char>, t: &Vec<char>, lo: usize, hi: usize)
    requires
        lo <= hi <= t@.len(),
    ensures
        final(acc)@ == old(acc)@ + t@.subrange(lo as int, hi as int),
{
    let mut i = lo;
    while i < hi
        invariant
            lo <= i <= hi <= t@.len(),
            acc@ == old(acc)@ + t@.subrange(lo as int, i as int),
        decreases hi - i,
    {
        acc.push(t[i]);
        i = i + 1;
        assert(acc@ =~= old(acc)@ + t@.subrange(lo as int, i as int));
    }
}

/// Appends the text of group `g` of match `m` of `t` to `acc`.
fn push_group(acc: &mut Vec<char>, t: &Vec<char>, m: &Vec<Option<(usize, usize)>>, g: usize)
    ensures
        final(acc)@ == old(acc)@ + group_text(t@, m.deep_view(), g as nat),
{
    assert(m.deep_view().len() == m@.len());
    if g < m.len() {
        assert(m.deep_view()[g as int] == m@[g as int]);
        match m[g] {
            Some(span) => match char_span_exec(t, span) {
                Some((s, e)) => push_range(acc, t, s, e),
                None => {
                    assert(old(acc)@ + seq![] =~= old(acc)@);
                },
            },
            None => {
                assert(old(acc)@ + seq![] =~= old(acc)@);
            },
        }
    } else {
        assert(old(acc)@ + seq![] =~= old(acc)@);
    }
}

impl SubstitutionTo {
    /// The literal text of the replacement.
    pub fn literal_text(&self) -> (r: &str)
        ensures
            r@ == self.view().text,
    {
        self.0.as_str()
    }

    /// The insertions of the replacement: for each, the offset in the
    /// literal text and the capture group number.
    pub fn insertions(&self) -> (r: Vec<(usize, usize)>)
        ensures
            r@.len() == self.view().nodes.len(),
            forall|i: int|
                0 <= i < r@.len() ==> (#[trigger] r@[i].0 as nat, r@[i].1 as nat) == self.view().nodes[i],
    {
        let mut r: Vec<(usize, usize)> = Vec::new();
        let mut i: usize = 0;
        while i < self.1.len()
            invariant
                i <= self.1@.len(),
                r@.len() == i,
                forall|k: int|
                    0 <= k < i ==> (#[trigger] r@[k].0 as nat, r@[k].1 as nat) == self.view().nodes[k],
            decreases self.1.len() - i,
        {
            r.push((self.1[i].insert_at, self.1[i].capture_group));
            i = i + 1;
        }
        r
    }

    /// Appends the replacement text for match `m` of `t` to `acc`.
    fn expand_into(&self, acc: &mut Vec<char>, t: &Vec<char>, m: &Vec<Option<(usize, usize)>>)
        ensures
            final(acc)@ == old(acc)@ + expansion(self.view(), t@, m.deep_view()),
    {
        proof {
            use_type_invariant(self);
        }
        let text = chars_of(self.0.as_str());
        let ghost r = self.view();
        let ghost mv = m.deep_view();
        let mut last: usize = 0;
        let mut j: usize = 0;
        while j < self.1.len()
            invariant
                j <= self.1@.len(),
                r == self.view(),
                r.well_formed(),
                mv == m.deep_view(),
                text@ == r.text,
                r.nodes.len() == self.1@.len(),
                expand_nodes(r, t@, mv, j as nat).1 == last as int,
                acc@ == old(acc)@ + expand_nodes(r, t@, mv, j as nat).0,
                j > 0 ==> last as int == r.nodes[j - 1].0,
                j == 0 ==> last == 0,
                last <= r.text.len(),
            decreases self.1.len() - j,
        {
            let node = &self.1[j];
            assert(r.nodes[j as int] == (node.insert_at as nat, node.capture_group as nat));
            proof {
                if j > 0 {
                    assert(r.nodes[j - 1].0 <= r.nodes[j as int].0);
                }
                assert(r.nodes[j as int].0 <= r.text.len());
            }
            let ghost before = acc@;
            push_range(acc, &text, last, node.insert_at);
            push_group(acc, t, m, node.capture_group);
            proof {
                assert(acc@ =~= old(acc)@ + expand_nodes(r, t@, mv, (j + 1) as nat).0);
            }
            last = node.insert_at;
            j = j + 1;
        }
        push_range(acc, &text, last, text.len());
        assert(acc@ =~= old(acc)@ + expansion(r, t@, mv));
    }
}

proof fn lemma_replace_matches_stuck(r: ReplacementView, t: Seq<char>, caps: Seq<Seq<Option<(usize, usize)>>>, k: nat, n: nat)
    requires
        k <= n,
        replace_matches(r, t, caps, k) is None,
    ensures
        replace_matches(r, t, caps, n) is None,
    decreases n - k,
{
    if k < n {
        lemma_replace_matches_stuck(r, t, caps, k, (n - 1) as nat);
    }
}

/// Replaces the matches `caps` of `t` by `to` (see [`substitute_text`]).
fn substitute_chars(to: &SubstitutionTo, t: &Vec<char>, caps: &MatchSpans, all: bool) -> (r: Option<Vec<char>>)
    ensures
        match r {
            Some(v) => substitute_text(to.view(), t@, caps.deep_view(), all) == Some(v@),
            None => substitute_text(to.view(), t@, caps.deep_view(), all) is None,
        },
{
    let ghost cv = caps.deep_view();
    assert(cv.len() == caps@.len());
    if caps.len() == 0 {
        return None;
    }
    let n: usize = if all {
        caps.len()
    } else {
        1
    };
    let mut acc: Vec<char> = Vec::new();
    let mut last: usize = 0;
    let mut i: usize = 0;
    while i < n
        invariant
            i <= n <= caps@.len(),
            n == (if all { caps@.len() } else { 1 }),
            caps@.len() > 0,
            cv == caps.deep_view(),
            cv.len() == caps@.len(),
            replace_matches(to.view(), t@, cv, i as nat) == Some((acc@, last as int)),
            last <= t@.len(),
        decreases n - i,
    {
        let m = &caps[i];
        assert(cv[i as int] == m.deep_view());
        assert(m.deep_view().len() == m@.len());
        if m.len() == 0 {
            assert(cv[i as int].len() == 0);
            assert(replace_matches(to.view(), t@, cv, (i + 1) as nat) is None);
            proof {
                lemma_replace_matches_stuck(to.view(), t@, cv, (i + 1) as nat, n as nat);
            assert(replace_matches(to.view(), t@, cv, n as nat) is None);
            assert(substitute_text(to.view(), t@, cv, all) is None);
                assert(replace_matches(to.view(), t@, cv, n as nat) is None);
                assert(substitute_text(to.view(), t@, cv, all) is None);
            }
            return None;
        }
        assert(m.deep_view()[0] == m@[0]);
        match m[0] {
            None => {
                proof {
                    lemma_replace_matches_stuck(to.view(), t@, cv, (i + 1) as nat, n as nat);
            assert(replace_matches(to.view(), t@, cv, n as nat) is None);
            assert(substitute_text(to.view(), t@, cv, all) is None);
                assert(replace_matches(to.view(), t@, cv, n as nat) is None);
                assert(substitute_text(to.view(), t@, cv, all) is None);
                }
                return None;
            },
            Some(span) => match char_span_exec(t, span) {
                None => {
                    proof {
                        lemma_replace_matches_stuck(to.view(), t@, cv, (i + 1) as nat, n as nat);
            assert(replace_matches(to.view(), t@, cv, n as nat) is None);
            assert(substitute_text(to.view(), t@, cv, all) is None);
                assert(replace_matches(to.view(), t@, cv, n as nat) is None);
                assert(substitute_text(to.view(), t@, cv, all) is None);
                    }
                    return None;
                },
                Some((s, e)) => {
                    if s < last {
                        proof {
                            lemma_replace_matches_stuck(to.view(), t@, cv, (i + 1) as nat, n as nat);
            assert(replace_matches(to.view(), t@, cv, n as nat) is None);
            assert(substitute_text(to.view(), t@, cv, all) is None);
                assert(replace_matches(to.view(), t@, cv, n as nat) is None);
                assert(substitute_text(to.view(), t@, cv, all) is None);
                        }
                        return None;
                    }
                    push_range(&mut acc, t, last, s);
                    to.expand_into(&mut acc, t, m);
                    last = e;
                },
            },
        }
        i = i + 1;
    }
    push_range(&mut acc, t, last, t.len());
    Some(acc)
}

/// `s/regex/replacement/`: replaces the first match of the regex in the
/// pattern space (every match with the `g` flag) and, if there was a
/// match, sets the substitution flag.
#[derive(Debug)]
pub struct SubstituteCommand {
    from: CompiledRegex,
    to: SubstitutionTo,
    all: bool,
}

impl SubstituteCommand {
    pub closed spec fn view(&self) -> CommandView {
        CommandView::Substitute {
            pattern: self.from.source(),
            case_insensitive: self.from.is_case_insensitive(),
            replacement: self.to.view(),
            all: self.all,
        }
    }
}

impl SedCommand for SubstituteCommand {
    fn execute(
        &self,
        line_state: &mut SedLineState,
        line_details: &SedLineInfo,
        hold_space: &mut String,
        pattern_space: &mut String,
    ) -> (r: CommandResult)
        ensures
            command_outcome(self.view(), *old(line_state), old(hold_space)@, old(pattern_space)@)
                == (CommandOutcome {
                state: *final(line_state),
                hold: final(hold_space)@,
                pattern: final(pattern_space)@,
                result: r@,
            }),
    {
        let t = chars_of(pattern_space.as_str());
        let caps = self.from.capture_spans(pattern_space.as_str());
        match substitute_chars(&self.to, &t, &caps, self.all) {
            Some(v) => {
                *pattern_space = string_from(v.as_slice());
                line_state.substitution_successful = true;
            },
            None => {},
        }
        CommandResult::Nothing
    }
}

/// Whether `c` occurs in `s`.
pub fn contains_char(s: &str, c: char) -> (r: bool)
    ensures
        r == s@.contains(c),
{
    let v = chars_of(s);
    let mut i: usize = 0;
    while i < v.len()
        invariant
            i <= v@.len(),
            v@ == s@,
            forall|k: int| 0 <= k < i ==> v@[k] != c,
        decreases v.len() - i,
    {
        if v[i] == c {
            return true;
        }
        i = i + 1;
    }
    false
}

/// The command `s` builds from its fields and flags.
pub open spec fn substitute_build(fields: Seq<Seq<char>>, flags: Seq<char>) -> Result<
    CommandView,
    ParserErrorView,
> {
    if fields.len() != 2 {
        Err(ParserErrorView::IncorrectArgumentCount)
    } else if fields[0].len() == 0 {
        Err(ParserErrorView::EmptyRegularExpression)
    } else if !regex_compiles(fields[0], flags.contains('i')) {
        Err(ParserErrorView::RegexError)
    } else {
        Ok(
            CommandView::Substitute {
                pattern: fields[0],
                case_insensitive: flags.contains('i'),
                replacement: parse_replacement(fields[1]),
                all: flags.contains('g'),
            },
        )
    }
}

/// The name `s` reports in errors.
pub fn substitution_name() -> (r: String)
    ensures
        r@ == seq!['s', 'u', 'b', 's', 't', 'i', 't', 'u', 't', 'i', 'o', 'n'],
{
    let r = "substitution".to_owned();
    proof {
        reveal_strlit("substitution");
    }
    assert(r@ =~= seq!['s', 'u', 'b', 's', 't', 'i', 't', 'u', 't', 'i', 'o', 'n']);
    r
}

/// Builds [`SubstituteCommand`].
#[derive(Debug)]
pub struct SubstituteCommandFactory;

impl SubstitutionLikeCommandFactory for SubstituteCommandFactory {
    fn new(&self, current_parser: &mut ParserState, arguments: Vec<String>, flags: String) -> (r:
        Result<Command, ParserError>)
        ensures
            *final(current_parser) == *old(current_parser),
            match substitute_build(arguments.deep_view(), flags@) {
                Ok(c) => r matches Ok(c2) && c2.view() == c,
                Err(e) => r matches Err(e2) && e2@ == e,
            },
    {
        let ghost fields = arguments.deep_view();
        if arguments.len() != 2 {
            return Err(ParserError::IncorrectArgumentCount);
        }
        assert(fields[0] == arguments@[0]@ && fields[1] == arguments@[1]@);
        let mut arguments = arguments;
        let to = arguments.pop().unwrap();
        let from = arguments.pop().unwrap();
        if from.as_str().is_empty() {
            return Err(ParserError::EmptyRegularExpression);
        }
        let case_insensitive = contains_char(flags.as_str(), 'i');
        let from = match CompiledRegex::new(from.as_str(), case_insensitive) {
            Ok(re) => re,
            Err(e) => {
                return Err(ParserError::RegexError(e));
            },
        };
        let all = contains_char(flags.as_str(), 'g');
        Ok(
            Command::Substitute(
                SubstituteCommand { from, to: parse_sed_style_replacement_string(to.as_str()), all },
            ),
        )
    }

    fn check_flag(&self, flag: char) -> (r: bool)
        ensures
            r == (flag == 'i' || flag == 'g'),
    {
        match flag {
            'i' | 'g' => true,
            _ => false,
        }
    }

    fn field_count(&self) -> (r: usize)
        ensures
            r == 2,
    {
        2
    }

    fn command_name(&self) -> (r: &'static str)
        ensures
            r@ == seq!['s', 'u', 'b', 's', 't', 'i', 't', 'u', 't', 'i', 'o', 'n'],
    {
        proof {
            reveal_strlit("substitution");
        }
        "substitution"
    }
}

proof fn lemma_plain_replacement_from(s: Seq<char>, i: int, text: Seq<char>)
    requires
        0 <= i <= s.len(),
        !s.contains('\\'),
        text == s.take(i),
    ensures
        replacement_from(s, i, text, seq![]) == (ReplacementView { text: s, nodes: seq![] }),
    decreases s.len() - i,
{
    if i < s.len() {
        assert(s[i] != '\\');
        assert(text.push(s[i]) =~= s.take(i + 1));
        lemma_plain_replacement_from(s, i + 1, text.push(s[i]));
    } else {
        assert(s.take(i) =~= s);
    }
}

/// A replacement without backslashes is inserted literally: no capture
/// group is referenced.
pub proof fn lemma_plain_replacement(s: Seq<char>)
    requires
        !s.contains('\\'),
    ensures
        parse_replacement(s) == (ReplacementView { text: s, nodes: seq![] }),
{
    assert(s.take(0) =~= seq![]);
    lemma_plain_replacement_from(s, 0, seq![]);
}

/// When the regex does not match, `s` leaves the pattern space and the
/// substitution flag as they were.
pub proof fn lemma_no_match_no_change(
    re: Seq<char>,
    case_insensitive: bool,
    r: ReplacementView,
    all: bool,
    st: SedLineState,
    hold: Seq<char>,
    pattern: Seq<char>,
)
    requires
        regex_captures(re, case_insensitive, pattern).len() == 0,
    ensures
        ({
            let o = command_outcome(
                CommandView::Substitute { pattern: re, case_insensitive, replacement: r, all },
                st,
                hold,
                pattern,
            );
            o.pattern == pattern && o.state == st && o.hold == hold
        }),
{
}

} // verus!
