use vstd::prelude::*;

use crate::parser::parsecommand::{
    command_outcome, Command, CommandOutcome, CommandResult, CommandView, NoArgumentCommandFactory, SedCommand,
};
use crate::parser::{ParserError, ParserState};
use crate::program::{SedLineInfo, SedLineState};

verus! {

/// `H`: appends a newline and the pattern space to the hold space.
#[derive(Debug)]
pub struct HoldAppendCommand;

impl SedCommand for HoldAppendCommand {
    fn execute(
        &self,
        line_state: &mut SedLineState,
        line_details: &SedLineInfo,
        hold_space: &mut String,
        pattern_space: &mut String,
    ) -> (r: CommandResult)
        ensures
            command_outcome(CommandView::HoldAppend, *old(line_state), old(hold_space)@, old(pattern_space)@)
                == (CommandOutcome {
                state: *final(line_state),
                hold: final(hold_space)@,
                pattern: final(pattern_space)@,
                result: r@,
            }),
    {
        hold_space.push('\n');
        crate::text::push_string(hold_space, pattern_space.as_str());
        assert(hold_space@ =~= old(hold_space)@ + seq!['\n'] + pattern_space@);
        CommandResult::Nothing
    }
}

impl NoArgumentCommandFactory for HoldAppendCommand {
    fn new(&self, current_parser: &mut ParserState) -> (r: Result<Command, ParserError>)
        ensures
            *final(current_parser) == *old(current_parser),
            r matches Ok(c) && c.view() == CommandView::HoldAppend,
    {
        Ok(Command::HoldAppend(HoldAppendCommand))
    }
}

} // verus!
