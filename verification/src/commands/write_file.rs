use vstd::prelude::*;

use crate::parser::parsecommand::{
    command_outcome, Command, CommandOutcome, CommandResult, CommandView, SingleLineArgumentCommandFactory, SedCommand,
};
use crate::parser::{ParserError, ParserState};
use crate::program::{SedLineInfo, SedLineState};

verus! {

/// `w file`: asks for the pattern space to be written to the file.
#[derive(Debug)]
pub struct WriteFileCommand(String);

impl WriteFileCommand {
    pub closed spec fn view(&self) -> CommandView {
        CommandView::WriteFile(self.0@)
    }
}

impl SedCommand for WriteFileCommand {
    fn execute(
        &self,
        line_state: &mut SedLineState,
        line_details: &SedLineInfo,
        hold_space: &mut String,
        pattern_space: &mut String,
    ) -> (r: CommandResult)
        ensures
            command_outcome(self.view(), *old(line_state), old(hold_space)@, old(pattern_space)@)
                == (CommandOutcome {
                state: *final(line_state),
                hold: final(hold_space)@,
                pattern: final(pattern_space)@,
                result: r@,
            }),
    {
        CommandResult::WriteFile(self.0.clone(), pattern_space.clone())
    }
}

/// Builds [`WriteFileCommand`].
#[derive(Debug)]
pub struct WriteFileCommandFactory;

impl SingleLineArgumentCommandFactory for WriteFileCommandFactory {
    fn new(&self, current_parser: &mut ParserState, argument: String) -> (r: Result<
        Command,
        ParserError,
    >)
        ensures
            *final(current_parser) == *old(current_parser),
            r matches Ok(c) && c.view() == CommandView::WriteFile(argument@),
    {
        Ok(Command::WriteFile(WriteFileCommand(argument)))
    }
}

} // verus!
