use vstd::prelude::*;

use crate::parser::parsecommand::{
    command_outcome, newline_position, Command, CommandOutcome, CommandResult, CommandView,
    NoArgumentCommandFactory, SedCommand,
};
use crate::parser::{ParserError, ParserState};
use crate::program::{SedLineInfo, SedLineState};
use crate::text::{chars_of, string_of_range};

verus! {

/// `P`: prints the pattern space up to its first newline.
#[derive(Debug)]
pub struct PrintFirstLineCommand;

impl SedCommand for PrintFirstLineCommand {
    fn execute(
        &self,
        line_state: &mut SedLineState,
        line_details: &SedLineInfo,
        hold_space: &mut String,
        pattern_space: &mut String,
    ) -> (r: CommandResult)
        ensures
            command_outcome(CommandView::PrintFirstLine, *old(line_state), old(hold_space)@, old(pattern_space)@)
                == (CommandOutcome {
                state: *final(line_state),
                hold: final(hold_space)@,
                pattern: final(pattern_space)@,
                result: r@,
            }),
    {
        let v = chars_of(pattern_space.as_str());
        let i = newline_position(&v);
        let first = string_of_range(&v, 0, i);
        assert(v@.subrange(0, i as int) =~= v@.take(i as int));
        CommandResult::Print(first)
    }
}

impl NoArgumentCommandFactory for PrintFirstLineCommand {
    fn new(&self, current_parser: &mut ParserState) -> (r: Result<Command, ParserError>)
        ensures
            *final(current_parser) == *old(current_parser),
            r matches Ok(c) && c.view() == CommandView::PrintFirstLine,
    {
        Ok(Command::PrintFirstLine(PrintFirstLineCommand))
    }
}

} // verus!
