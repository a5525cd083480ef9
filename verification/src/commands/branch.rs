use vstd::prelude::*;

use crate::parser::parsecommand::{
    command_outcome, Command, CommandOutcome, CommandResult, CommandView, SingleLineArgumentCommandFactory, SedCommand,
};
use crate::parser::{ParserError, ParserState};
use crate::program::{SedLineInfo, SedLineState};
use crate::text::{trimmed, trim_chars};

verus! {

/// `b label`: jumps to the label, or to the end of the script when the label is empty.
#[derive(Debug)]
pub struct BranchCommand(String);

impl BranchCommand {
    pub closed spec fn view(&self) -> CommandView {
        CommandView::Branch(self.0@)
    }
}

impl SedCommand for BranchCommand {
    fn execute(
        &self,
        line_state: &mut SedLineState,
        line_details: &SedLineInfo,
        hold_space: &mut String,
        pattern_space: &mut String,
    ) -> (r: CommandResult)
        ensures
            command_outcome(self.view(), *old(line_state), old(hold_space)@, old(pattern_space)@)
                == (CommandOutcome {
                state: *final(line_state),
                hold: final(hold_space)@,
                pattern: final(pattern_space)@,
                result: r@,
            }),
    {
        if self.0.as_str().is_empty() {
            CommandResult::BranchToEnd
        } else {
            CommandResult::BranchToLabel(self.0.clone())
        }
    }
}

/// Builds [`BranchCommand`].
#[derive(Debug)]
pub struct BranchCommandFactory;

impl SingleLineArgumentCommandFactory for BranchCommandFactory {
    fn new(&self, current_parser: &mut ParserState, argument: String) -> (r: Result<
        Command,
        ParserError,
    >)
        ensures
            *final(current_parser) == *old(current_parser),
            r matches Ok(c) && c.view() == CommandView::Branch(trimmed(argument@)),
    {
        Ok(Command::Branch(BranchCommand(trim_chars(argument.as_str()))))
    }
}

} // verus!
