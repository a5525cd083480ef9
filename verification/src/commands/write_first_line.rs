use vstd::prelude::*;

use crate::parser::parsecommand::{
    command_outcome, newline_position, Command, CommandOutcome, CommandResult, CommandView,
    SedCommand, SingleLineArgumentCommandFactory,
};
use crate::parser::{ParserError, ParserState};
use crate::program::{SedLineInfo, SedLineState};
use crate::text::{chars_of, string_of_range};

verus! {

/// `W file`: asks for the pattern space up to its first newline to be
/// written to the file.
#[derive(Debug)]
pub struct WriteFileFirstLineCommand(String);

impl WriteFileFirstLineCommand {
    pub closed spec fn view(&self) -> CommandView {
        CommandView::WriteFileFirstLine(self.0@)
    }
}

impl SedCommand for WriteFileFirstLineCommand {
    fn execute(
        &self,
        line_state: &mut SedLineState,
        line_details: &SedLineInfo,
        hold_space: &mut String,
        pattern_space: &mut String,
    ) -> (r: CommandResult)
        ensures
            command_outcome(self.view(), *old(line_state), old(hold_space)@, old(pattern_space)@)
                == (CommandOutcome {
                state: *final(line_state),
                hold: final(hold_space)@,
                pattern: final(pattern_space)@,
                result: r@,
            }),
    {
        let v = chars_of(pattern_space.as_str());
        let i = newline_position(&v);
        let first = string_of_range(&v, 0, i);
        assert(v@.subrange(0, i as int) =~= v@.take(i as int));
        CommandResult::WriteFile(self.0.clone(), first)
    }
}

/// Builds [`WriteFileFirstLineCommand`].
#[derive(Debug)]
pub struct WriteFileFirstLineCommandFactory;

impl SingleLineArgumentCommandFactory for WriteFileFirstLineCommandFactory {
    fn new(&self, current_parser: &mut ParserState, argument: String) -> (r: Result<
        Command,
        ParserError,
    >)
        ensures
            *final(current_parser) == *old(current_parser),
            r matches Ok(c) && c.view() == CommandView::WriteFileFirstLine(argument@),
    {
        Ok(Command::WriteFileFirstLine(WriteFileFirstLineCommand(argument)))
    }
}

} // verus!
