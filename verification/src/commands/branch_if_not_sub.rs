use vstd::prelude::*;

use crate::parser::parsecommand::{
    command_outcome, Command, CommandOutcome, CommandResult, CommandView, SingleLineArgumentCommandFactory, SedCommand,
};
use crate::parser::{ParserError, ParserState};
use crate::program::{SedLineInfo, SedLineState};

verus! {

/// `T label`: when no substitution succeeded since the last input line or `t`, jumps to the label (to the end of the script when the label is empty).
#[derive(Debug)]
pub struct BranchIfNotSubSuccessfulCommand(String);

impl BranchIfNotSubSuccessfulCommand {
    pub closed spec fn view(&self) -> CommandView {
        CommandView::BranchIfNotSub(self.0@)
    }
}

impl SedCommand for BranchIfNotSubSuccessfulCommand {
    fn execute(
        &self,
        line_state: &mut SedLineState,
        line_details: &SedLineInfo,
        hold_space: &mut String,
        pattern_space: &mut String,
    ) -> (r: CommandResult)
        ensures
            command_outcome(self.view(), *old(line_state), old(hold_space)@, old(pattern_space)@)
                == (CommandOutcome {
                state: *final(line_state),
                hold: final(hold_space)@,
                pattern: final(pattern_space)@,
                result: r@,
            }),
    {
        if line_state.substitution_successful {
            CommandResult::Nothing
        } else if self.0.as_str().is_empty() {
            CommandResult::BranchToEnd
        } else {
            CommandResult::BranchToLabel(self.0.clone())
        }
    }
}

/// Builds [`BranchIfNotSubSuccessfulCommand`].
#[derive(Debug)]
pub struct BranchIfNotSubSuccessfulCommandFactory;

impl SingleLineArgumentCommandFactory for BranchIfNotSubSuccessfulCommandFactory {
    fn new(&self, current_parser: &mut ParserState, argument: String) -> (r: Result<
        Command,
        ParserError,
    >)
        ensures
            *final(current_parser) == *old(current_parser),
            r matches Ok(c) && c.view() == CommandView::BranchIfNotSub(argument@),
    {
        Ok(Command::BranchIfNotSub(BranchIfNotSubSuccessfulCommand(argument)))
    }
}

} // verus!
