use vstd::prelude::*;

use crate::parser::parsecommand::{
    command_outcome, Command, CommandOutcome, CommandResult, CommandView, SingleLineArgumentCommandFactory, SedCommand,
};
use crate::parser::{ParserError, ParserState};
use crate::program::{SedLineInfo, SedLineState};

verus! {

/// `r file`: asks for the contents of the file to be appended to the output.
#[derive(Debug)]
pub struct ReadFileCommand(String);

impl ReadFileCommand {
    pub closed spec fn view(&self) -> CommandView {
        CommandView::ReadFile(self.0@)
    }
}

impl SedCommand for ReadFileCommand {
    fn execute(
        &self,
        line_state: &mut SedLineState,
        line_details: &SedLineInfo,
        hold_space: &mut String,
        pattern_space: &mut String,
    ) -> (r: CommandResult)
        ensures
            command_outcome(self.view(), *old(line_state), old(hold_space)@, old(pattern_space)@)
                == (CommandOutcome {
                state: *final(line_state),
                hold: final(hold_space)@,
                pattern: final(pattern_space)@,
                result: r@,
            }),
    {
        CommandResult::ReadFileAppend(self.0.clone())
    }
}

/// Builds [`ReadFileCommand`].
#[derive(Debug)]
pub struct ReadFileCommandFactory;

impl SingleLineArgumentCommandFactory for ReadFileCommandFactory {
    fn new(&self, current_parser: &mut ParserState, argument: String) -> (r: Result<
        Command,
        ParserError,
    >)
        ensures
            *final(current_parser) == *old(current_parser),
            r matches Ok(c) && c.view() == CommandView::ReadFile(argument@),
    {
        Ok(Command::ReadFile(ReadFileCommand(argument)))
    }
}

} // verus!
