use vstd::prelude::*;

use crate::parser::parsecommand::{
    command_outcome, Command, CommandOutcome, CommandResult, CommandView, NoArgumentCommandFactory, SedCommand,
};
use crate::parser::{ParserError, ParserState};
use crate::program::{SedLineInfo, SedLineState};

verus! {

/// `g`: replaces the pattern space with a copy of the hold space.
#[derive(Debug)]
pub struct GetReplaceCommand;

impl SedCommand for GetReplaceCommand {
    fn execute(
        &self,
        line_state: &mut SedLineState,
        line_details: &SedLineInfo,
        hold_space: &mut String,
        pattern_space: &mut String,
    ) -> (r: CommandResult)
        ensures
            command_outcome(CommandView::GetReplace, *old(line_state), old(hold_space)@, old(pattern_space)@)
                == (CommandOutcome {
                state: *final(line_state),
                hold: final(hold_space)@,
                pattern: final(pattern_space)@,
                result: r@,
            }),
    {
        *pattern_space = hold_space.clone();
        CommandResult::Nothing
    }
}

impl NoArgumentCommandFactory for GetReplaceCommand {
    fn new(&self, current_parser: &mut ParserState) -> (r: Result<Command, ParserError>)
        ensures
            *final(current_parser) == *old(current_parser),
            r matches Ok(c) && c.view() == CommandView::GetReplace,
    {
        Ok(Command::GetReplace(GetReplaceCommand))
    }
}

/// `h` followed by `g` gives back the pattern space, and leaves a copy of
/// it in the hold space.
pub proof fn lemma_hold_then_get(st: SedLineState, hold: Seq<char>, pattern: Seq<char>)
    ensures
        ({
            let o1 = command_outcome(CommandView::HoldReplace, st, hold, pattern);
            let o2 = command_outcome(CommandView::GetReplace, o1.state, o1.hold, o1.pattern);
            o2.pattern == pattern && o2.hold == pattern && o2.state == st
        }),
{
}

} // verus!
