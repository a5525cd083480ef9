use vstd::prelude::*;

use crate::parser::parsecommand::{
    command_outcome, lemma_newline_index, newline_position, Command, CommandOutcome, CommandResult,
    CommandResultView, CommandView, NoArgumentCommandFactory, SedCommand,
};
use crate::parser::{ParserError, ParserState};
use crate::program::{SedLineInfo, SedLineState};
use crate::text::{chars_of, string_of_range};

verus! {

/// `D`: drops the pattern space up to and including its first newline and
/// restarts the script; without a newline it acts as `d`.
#[derive(Debug)]
pub struct DeleteFirstLineCommand;

impl SedCommand for DeleteFirstLineCommand {
    fn execute(
        &self,
        line_state: &mut SedLineState,
        line_details: &SedLineInfo,
        hold_space: &mut String,
        pattern_space: &mut String,
    ) -> (r: CommandResult)
        ensures
            command_outcome(CommandView::DeleteFirstLine, *old(line_state), old(hold_space)@, old(pattern_space)@)
                == (CommandOutcome {
                state: *final(line_state),
                hold: final(hold_space)@,
                pattern: final(pattern_space)@,
                result: r@,
            }),
    {
        let v = chars_of(pattern_space.as_str());
        let i = newline_position(&v);
        if i < v.len() {
            *pattern_space = string_of_range(&v, i + 1, v.len());
            assert(v@.subrange(i + 1, v@.len() as int) =~= v@.skip(i + 1));
            CommandResult::BranchToStart
        } else {
            pattern_space.clear();
            line_state.implicit_print_at_end = false;
            CommandResult::BranchToEnd
        }
    }
}

impl NoArgumentCommandFactory for DeleteFirstLineCommand {
    fn new(&self, current_parser: &mut ParserState) -> (r: Result<Command, ParserError>)
        ensures
            *final(current_parser) == *old(current_parser),
            r matches Ok(c) && c.view() == CommandView::DeleteFirstLine,
    {
        Ok(Command::DeleteFirstLine(DeleteFirstLineCommand))
    }
}

/// On a pattern space of several lines, `D` drops the first line and its
/// newline, keeps the rest, and restarts the script (nothing is printed and
/// no input is read); the flags and the hold space stay as they are.
pub proof fn lemma_delete_first_line_restarts(st: SedLineState, hold: Seq<char>, first: Seq<char>, rest: Seq<char>)
    requires
        !first.contains('\n'),
    ensures
        command_outcome(CommandView::DeleteFirstLine, st, hold, first + seq!['\n'] + rest) == (CommandOutcome {
            state: st,
            hold,
            pattern: rest,
            result: CommandResultView::BranchToStart,
        }),
{
    let s = first + seq!['\n'] + rest;
    assert forall|j: int| 0 <= j < first.len() implies s[j] != '\n' by {
        assert(s[j] == first[j]);
    }
    lemma_newline_index(s, first.len() as int);
    assert(s.skip(first.len() as int + 1) =~= rest);
}

/// On a single-line pattern space, `D` acts as `d`: it empties the pattern
/// space, turns off the print at the end of the line and ends the script.
pub proof fn lemma_delete_first_line_single(st: SedLineState, hold: Seq<char>, pattern: Seq<char>)
    requires
        !pattern.contains('\n'),
    ensures
        command_outcome(CommandView::DeleteFirstLine, st, hold, pattern) == (CommandOutcome {
            state: SedLineState { implicit_print_at_end: false, ..st },
            hold,
            pattern: seq![],
            result: CommandResultView::BranchToEnd,
        }),
{
    assert forall|j: int| 0 <= j < pattern.len() implies pattern[j] != '\n' by {
        if pattern[j] == '\n' {
            assert(pattern.contains('\n'));
        }
    }
    lemma_newline_index(pattern, pattern.len() as int);
}

} // verus!
