use vstd::prelude::*;

use crate::parser::parsecommand::{
    command_outcome, Command, CommandOutcome, CommandResult, CommandView, NoArgumentCommandFactory, SedCommand,
};
use crate::parser::{ParserError, ParserState};
use crate::program::{SedLineInfo, SedLineState};

verus! {

/// `Q`: empties the pattern space and turns off the print at the end of
/// the line, then ends the script and the input without printing.
#[derive(Debug)]
pub struct QuitNoPrintCommand;

impl SedCommand for QuitNoPrintCommand {
    fn execute(
        &self,
        line_state: &mut SedLineState,
        line_details: &SedLineInfo,
        hold_space: &mut String,
        pattern_space: &mut String,
    ) -> (r: CommandResult)
        ensures
            command_outcome(CommandView::QuitNoPrint, *old(line_state), old(hold_space)@, old(pattern_space)@)
                == (CommandOutcome {
                state: *final(line_state),
                hold: final(hold_space)@,
                pattern: final(pattern_space)@,
                result: r@,
            }),
    {
        pattern_space.clear();
        line_state.implicit_print_at_end = false;
        CommandResult::QuitScript
    }
}

impl NoArgumentCommandFactory for QuitNoPrintCommand {
    fn new(&self, current_parser: &mut ParserState) -> (r: Result<Command, ParserError>)
        ensures
            *final(current_parser) == *old(current_parser),
            r matches Ok(c) && c.view() == CommandView::QuitNoPrint,
    {
        Ok(Command::QuitNoPrint(QuitNoPrintCommand))
    }
}

} // verus!
