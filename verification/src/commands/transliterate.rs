//! `y/source/dest/`: replaces each character found in `source` by the
//! character at the same place in `dest`.
use vstd::prelude::*;
use vstd::utf8::{encode_utf8, is_ascii_chars};

use crate::parser::parsecommand::{
    command_outcome, Command, CommandOutcome, CommandResult, CommandResultView, CommandView, SedCommand,
    SubstitutionLikeCommandFactory,
};
use crate::parser::{ParserError, ParserErrorView, ParserState};
use crate::program::{SedLineInfo, SedLineState};
use crate::text::{chars_of, string_from};

verus! {

/// `y/source/dest/`: maps characters of the pattern space.
#[derive(Debug)]
pub struct TransliterateCommand {
    map: Vec<(char, char)>,
    all_ascii: bool,
}

/// The image of `c`: the target of the first pair of `map` whose source is
/// `c`, or `c` itself.
pub open spec fn transliterate_char(map: Seq<(char, char)>, c: char) -> char
    decreases map.len(),
{
    if map.len() == 0 {
        c
    } else if map[0].0 == c {
        map[0].1
    } else {
        transliterate_char(map.drop_first(), c)
    }
}

/// `s` with every character replaced by its image under `map`.
pub open spec fn transliterated(map: Seq<(char, char)>, s: Seq<char>) -> Seq<char> {
    s.map_values(|c: char| transliterate_char(map, c))
}

/// The pairs `(a[i], b[i])` for the indices both sequences have.
pub open spec fn zip_chars(a: Seq<char>, b: Seq<char>) -> Seq<(char, char)> {
    Seq::new(if a.len() <= b.len() { a.len() } else { b.len() }, |i: int| (a[i], b[i]))
}

impl TransliterateCommand {
    pub closed spec fn view(&self) -> CommandView {
        CommandView::Transliterate { map: self.map@, all_ascii: self.all_ascii }
    }

    /// The image of `c` under the map.
    fn map_char(&self, c: char) -> (r: char)
        ensures
            r == transliterate_char(self.map@, c),
    {
        let mut i: usize = 0;
        assert(self.map@.skip(0) =~= self.map@);
        while i < self.map.len()
            invariant
                i <= self.map@.len(),
                transliterate_char(self.map@, c) == transliterate_char(self.map@.skip(i as int), c),
            decreases self.map.len() - i,
        {
            let ghost rest = self.map@.skip(i as int);
            assert(rest[0] == self.map@[i as int]);
            if self.map[i].0 == c {
                return self.map[i].1;
            }
            assert(rest.drop_first() =~= self.map@.skip(i + 1));
            i = i + 1;
        }
        c
    }
}

impl SedCommand for TransliterateCommand {
    fn execute(
        &self,
        line_state: &mut SedLineState,
        line_details: &SedLineInfo,
        hold_space: &mut String,
        pattern_space: &mut String,
    ) -> (r: CommandResult)
        ensures
            command_outcome(self.view(), *old(line_state), old(hold_space)@, old(pattern_space)@)
                == (CommandOutcome {
                state: *final(line_state),
                hold: final(hold_space)@,
                pattern: final(pattern_space)@,
                result: r@,
            }),
    {
        let v = chars_of(pattern_space.as_str());
        let mut out: Vec<char> = Vec::new();
        let mut i: usize = 0;
        while i < v.len()
            invariant
                i <= v@.len(),
                out@ == transliterated(self.map@, v@.take(i as int)),
            decreases v.len() - i,
        {
            let c = self.map_char(v[i]);
            out.push(c);
            i = i + 1;
            assert(out@ =~= transliterated(self.map@, v@.take(i as int)));
        }
        assert(v@.take(v@.len() as int) =~= v@);
        *pattern_space = string_from(out.as_slice());
        CommandResult::Nothing
    }
}

/// The command `y` builds from its fields.
pub open spec fn transliterate_build(fields: Seq<Seq<char>>) -> Result<CommandView, ParserErrorView> {
    if fields.len() != 2 {
        Err(ParserErrorView::IncorrectArgumentCount)
    } else if encode_utf8(fields[0]).len() as usize != encode_utf8(fields[1]).len() as usize {
        Err(ParserErrorView::InvalidArguments)
    } else {
        Ok(
            CommandView::Transliterate {
                map: zip_chars(fields[0], fields[1]),
                all_ascii: is_ascii_chars(fields[1]) && is_ascii_chars(fields[0]),
            },
        )
    }
}

/// The name `y` reports in errors.
pub fn transliteration_name() -> (r: String)
    ensures
        r@ == seq!['t', 'r', 'a', 'n', 's', 'l', 'i', 't', 'e', 'r', 'a', 't', 'i', 'o', 'n'],
{
    let r = "transliteration".to_owned();
    proof {
        reveal_strlit("transliteration");
    }
    assert(r@ =~= seq!['t', 'r', 'a', 'n', 's', 'l', 'i', 't', 'e', 'r', 'a', 't', 'i', 'o', 'n']);
    r
}

/// Builds [`TransliterateCommand`].
#[derive(Debug)]
pub struct TransliterateCommandFactory;

impl SubstitutionLikeCommandFactory for TransliterateCommandFactory {
    fn new(&self, current_parser: &mut ParserState, arguments: Vec<String>, flags: String) -> (r:
        Result<Command, ParserError>)
        ensures
            *final(current_parser) == *old(current_parser),
            match transliterate_build(arguments.deep_view()) {
                Ok(c) => r matches Ok(c2) && c2.view() == c,
                Err(e) => r matches Err(e2) && e2@ == e,
            },
    {
        let ghost fields = arguments.deep_view();
        if arguments.len() != 2 {
            return Err(ParserError::IncorrectArgumentCount);
        }
        assert(fields[0] == arguments@[0]@ && fields[1] == arguments@[1]@);
        if arguments[0].as_str().len() != arguments[1].as_str().len() {
            return Err(ParserError::InvalidArguments);
        }
        let mut arguments = arguments;
        let to = arguments.pop().unwrap();
        let from = arguments.pop().unwrap();
        let all_ascii = to.as_str().is_ascii() && from.as_str().is_ascii();
        let a = chars_of(from.as_str());
        let b = chars_of(to.as_str());
        let n = if a.len() <= b.len() {
            a.len()
        } else {
            b.len()
        };
        let mut map: Vec<(char, char)> = Vec::new();
        let mut i: usize = 0;
        while i < n
            invariant
                i <= n,
                n <= a@.len(),
                n <= b@.len(),
                map@ == zip_chars(a@, b@).take(i as int),
                n == zip_chars(a@, b@).len(),
            decreases n - i,
        {
            map.push((a[i], b[i]));
            i = i + 1;
            assert(map@ =~= zip_chars(a@, b@).take(i as int));
        }
        assert(zip_chars(a@, b@).take(n as int) =~= zip_chars(a@, b@));
        Ok(Command::Transliterate(TransliterateCommand { all_ascii, map }))
    }

    fn check_flag(&self, flag: char) -> (r: bool)
        ensures
            r == false,
    {
        false
    }

    fn field_count(&self) -> (r: usize)
        ensures
            r == 2,
    {
        2
    }

    fn command_name(&self) -> (r: &'static str)
        ensures
            r@ == seq!['t', 'r', 'a', 'n', 's', 'l', 'i', 't', 'e', 'r', 'a', 't', 'i', 'o', 'n'],
    {
        proof {
            reveal_strlit("transliteration");
        }
        "transliteration"
    }
}

proof fn lemma_fixed_char(map: Seq<(char, char)>, c: char)
    requires
        forall|i: int| 0 <= i < map.len() ==> (#[trigger] map[i]).0 == map[i].1,
    ensures
        transliterate_char(map, c) == c,
    decreases map.len(),
{
    if map.len() > 0 && map[0].0 != c {
        assert forall|i: int| 0 <= i < map.drop_first().len() implies (#[trigger] map.drop_first()[i]).0
            == map.drop_first()[i].1 by {
            assert(map.drop_first()[i] == map[i + 1]);
        }
        lemma_fixed_char(map.drop_first(), c);
    }
}

/// `y/s/s/` (each character mapped to itself) leaves every pattern space
/// unchanged.
pub proof fn lemma_identity_transliteration(s: Seq<char>, pattern: Seq<char>)
    ensures
        transliterated(zip_chars(s, s), pattern) == pattern,
{
    let map = zip_chars(s, s);
    assert forall|k: int| 0 <= k < pattern.len() implies transliterated(map, pattern)[k] == pattern[k] by {
        lemma_fixed_char(map, pattern[k]);
    }
    assert(transliterated(map, pattern) =~= pattern);
}

/// The image of a character under a map: a character that is the source
/// of no pair is left as it is, and a character that is the source of
/// some pair goes to the target of the first such pair (and to nothing
/// else: targets are never mapped back).
pub proof fn lemma_transliterate_char_first_source(map: Seq<(char, char)>, c: char)
    ensures
        (forall|i: int| 0 <= i < map.len() ==> (#[trigger] map[i]).0 != c) ==> transliterate_char(map, c)
            == c,
        forall|i: int|
            0 <= i < map.len() && (#[trigger] map[i]).0 == c && (forall|j: int| 0 <= j < i ==> map[j].0 != c)
                ==> transliterate_char(map, c) == map[i].1,
    decreases map.len(),
{
    if map.len() > 0 {
        let rest = map.drop_first();
        lemma_transliterate_char_first_source(rest, c);
        if map[0].0 != c {
            assert forall|i: int| 0 <= i < rest.len() implies (#[trigger] rest[i]) == map[i + 1] by {}
            assert((forall|i: int| 0 <= i < map.len() ==> (#[trigger] map[i]).0 != c) ==> (forall|i: int|
                0 <= i < rest.len() ==> (#[trigger] rest[i]).0 != c)) by {
                if forall|i: int| 0 <= i < map.len() ==> (#[trigger] map[i]).0 != c {
                    assert forall|i: int| 0 <= i < rest.len() implies (#[trigger] rest[i]).0 != c by {
                        assert(rest[i] == map[i + 1]);
                    }
                }
            }
            assert forall|i: int|
                0 <= i < map.len() && (#[trigger] map[i]).0 == c && (forall|j: int| 0 <= j < i ==> map[j].0 != c)
                implies transliterate_char(map, c) == map[i].1 by {
                assert(i > 0);
                assert(rest[i - 1] == map[i]);
                assert forall|j: int| 0 <= j < i - 1 implies rest[j].0 != c by {
                    assert(rest[j] == map[j + 1]);
                }
            }
        } else {
            assert forall|i: int|
                0 <= i < map.len() && (#[trigger] map[i]).0 == c && (forall|j: int| 0 <= j < i ==> map[j].0 != c)
                implies transliterate_char(map, c) == map[i].1 by {
                if i > 0 {
                    assert(map[0].0 != c);
                }
            }
        }
    }
}

/// `y/source/dest/` maps each character of the pattern space on its own:
/// the result is as long as the pattern space, a character that does not
/// occur in `source` stays as it is, and a character that first occurs in
/// `source` at index `i` becomes `dest[i]` (`source` and `dest` being
/// paired up to the shorter of the two).
pub proof fn lemma_transliteration_by_first_occurrence(source: Seq<char>, dest: Seq<char>, pattern: Seq<char>)
    ensures
        transliterated(zip_chars(source, dest), pattern).len() == pattern.len(),
        forall|k: int|
            0 <= k < pattern.len() && !source.contains(pattern[k]) ==> #[trigger] transliterated(
                zip_chars(source, dest),
                pattern,
            )[k] == pattern[k],
        forall|k: int, i: int|
            #![trigger transliterated(zip_chars(source, dest), pattern)[k], source[i]]
            0 <= k < pattern.len() && 0 <= i < source.len() && i < dest.len() && source[i] == pattern[k] && (
            forall|j: int| 0 <= j < i ==> source[j] != pattern[k]) ==> transliterated(
                zip_chars(source, dest),
                pattern,
            )[k] == dest[i],
{
    let map = zip_chars(source, dest);
    assert forall|k: int| 0 <= k < pattern.len() && !source.contains(pattern[k]) implies #[trigger] transliterated(
        map,
        pattern,
    )[k] == pattern[k] by {
        lemma_transliterate_char_first_source(map, pattern[k]);
        assert forall|i: int| 0 <= i < map.len() implies (#[trigger] map[i]).0 != pattern[k] by {
            if map[i].0 == pattern[k] {
                assert(source[i] == pattern[k]);
            }
        }
    }
    assert forall|k: int, i: int|
        #![trigger transliterated(map, pattern)[k], source[i]]
        0 <= k < pattern.len() && 0 <= i < source.len() && i < dest.len() && source[i] == pattern[k] && (
        forall|j: int| 0 <= j < i ==> source[j] != pattern[k]) implies transliterated(map, pattern)[k]
        == dest[i] by {
        lemma_transliterate_char_first_source(map, pattern[k]);
        assert(map[i] == (source[i], dest[i]));
        assert forall|j: int| 0 <= j < i implies map[j].0 != pattern[k] by {
            assert(map[j].0 == source[j]);
        }
    }
}

/// The command `y/source/dest/` builds changes only the pattern space, and
/// changes it character by character as
/// [`lemma_transliteration_by_first_occurrence`] says.
pub proof fn lemma_y_command_outcome(fields: Seq<Seq<char>>, st: SedLineState, hold: Seq<char>, pattern: Seq<char>)
    ensures
        transliterate_build(fields) matches Ok(cv) ==> {
            let o = command_outcome(cv, st, hold, pattern);
            &&& o.state == st
            &&& o.hold == hold
            &&& o.result == CommandResultView::Nothing
            &&& o.pattern.len() == pattern.len()
            &&& forall|k: int|
                0 <= k < pattern.len() && !fields[0].contains(pattern[k]) ==> #[trigger] o.pattern[k]
                    == pattern[k]
            &&& forall|k: int, i: int|
                #![trigger o.pattern[k], fields[0][i]]
                0 <= k < pattern.len() && 0 <= i < fields[0].len() && i < fields[1].len() && fields[0][i]
                    == pattern[k] && (forall|j: int| 0 <= j < i ==> fields[0][j] != pattern[k]) ==> o.pattern[k]
                    == fields[1][i]
        },
{
    if fields.len() == 2 {
        lemma_transliteration_by_first_occurrence(fields[0], fields[1], pattern);
    }
}

} // verus!
