use vstd::prelude::*;

use crate::parser::parsecommand::{
    command_outcome, Command, CommandOutcome, CommandResult, CommandView, MultiLineArgumentCommandFactory, SedCommand,
};
use crate::parser::{ParserError, ParserState};
use crate::program::{SedLineInfo, SedLineState};

verus! {

/// `c text`: replaces the pattern space with the text.
#[derive(Debug)]
pub struct ChangeCommand(String);

impl ChangeCommand {
    pub closed spec fn view(&self) -> CommandView {
        CommandView::Change(self.0@)
    }
}

impl SedCommand for ChangeCommand {
    fn execute(
        &self,
        line_state: &mut SedLineState,
        line_details: &SedLineInfo,
        hold_space: &mut String,
        pattern_space: &mut String,
    ) -> (r: CommandResult)
        ensures
            command_outcome(self.view(), *old(line_state), old(hold_space)@, old(pattern_space)@)
                == (CommandOutcome {
                state: *final(line_state),
                hold: final(hold_space)@,
                pattern: final(pattern_space)@,
                result: r@,
            }),
    {
        *pattern_space = self.0.clone();
        CommandResult::Nothing
    }
}

/// Builds [`ChangeCommand`].
#[derive(Debug)]
pub struct ChangeCommandFactory;

impl MultiLineArgumentCommandFactory for ChangeCommandFactory {
    fn new(&self, current_parser: &mut ParserState, argument: String) -> (r: Result<
        Command,
        ParserError,
    >)
        ensures
            *final(current_parser) == *old(current_parser),
            r matches Ok(c) && c.view() == CommandView::Change(argument@),
    {
        Ok(Command::Change(ChangeCommand(argument)))
    }
}

} // verus!
