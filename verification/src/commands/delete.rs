use vstd::prelude::*;

use crate::parser::parsecommand::{
    command_outcome, Command, CommandOutcome, CommandResult, CommandView, NoArgumentCommandFactory, SedCommand,
};
use crate::parser::{ParserError, ParserState};
use crate::program::{SedLineInfo, SedLineState};

verus! {

/// `d`: empties the pattern space, turns off the printing at the end of the script, and ends the script for this line.
#[derive(Debug)]
pub struct DeleteCommand;

impl SedCommand for DeleteCommand {
    fn execute(
        &self,
        line_state: &mut SedLineState,
        line_details: &SedLineInfo,
        hold_space: &mut String,
        pattern_space: &mut String,
    ) -> (r: CommandResult)
        ensures
            command_outcome(CommandView::Delete, *old(line_state), old(hold_space)@, old(pattern_space)@)
                == (CommandOutcome {
                state: *final(line_state),
                hold: final(hold_space)@,
                pattern: final(pattern_space)@,
                result: r@,
            }),
    {
        pattern_space.clear();
        line_state.implicit_print_at_end = false;
        CommandResult::BranchToEnd
    }
}

impl NoArgumentCommandFactory for DeleteCommand {
    fn new(&self, current_parser: &mut ParserState) -> (r: Result<Command, ParserError>)
        ensures
            *final(current_parser) == *old(current_parser),
            r matches Ok(c) && c.view() == CommandView::Delete,
    {
        Ok(Command::Delete(DeleteCommand))
    }
}

} // verus!
