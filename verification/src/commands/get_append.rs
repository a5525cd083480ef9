use vstd::prelude::*;

use crate::parser::parsecommand::{
    command_outcome, Command, CommandOutcome, CommandResult, CommandView, NoArgumentCommandFactory, SedCommand,
};
use crate::parser::{ParserError, ParserState};
use crate::program::{SedLineInfo, SedLineState};

verus! {

/// `G`: appends a newline and the hold space to the pattern space.
#[derive(Debug)]
pub struct GetAppendCommand;

impl SedCommand for GetAppendCommand {
    fn execute(
        &self,
        line_state: &mut SedLineState,
        line_details: &SedLineInfo,
        hold_space: &mut String,
        pattern_space: &mut String,
    ) -> (r: CommandResult)
        ensures
            command_outcome(CommandView::GetAppend, *old(line_state), old(hold_space)@, old(pattern_space)@)
                == (CommandOutcome {
                state: *final(line_state),
                hold: final(hold_space)@,
                pattern: final(pattern_space)@,
                result: r@,
            }),
    {
        pattern_space.push('\n');
        crate::text::push_string(pattern_space, hold_space.as_str());
        assert(pattern_space@ =~= old(pattern_space)@ + seq!['\n'] + hold_space@);
        CommandResult::Nothing
    }
}

impl NoArgumentCommandFactory for GetAppendCommand {
    fn new(&self, current_parser: &mut ParserState) -> (r: Result<Command, ParserError>)
        ensures
            *final(current_parser) == *old(current_parser),
            r matches Ok(c) && c.view() == CommandView::GetAppend,
    {
        Ok(Command::GetAppend(GetAppendCommand))
    }
}

} // verus!
