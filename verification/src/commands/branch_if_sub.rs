use vstd::prelude::*;

use crate::parser::parsecommand::{
    command_outcome, Command, CommandOutcome, CommandResult, CommandView, SingleLineArgumentCommandFactory, SedCommand,
};
use crate::parser::{ParserError, ParserState};
use crate::program::{SedLineInfo, SedLineState};
use crate::text::{trimmed, trim_chars};

verus! {

/// `t label`: when a substitution succeeded since the last input line or `t`, clears that flag and jumps to the label (to the end of the script when the label is empty).
#[derive(Debug)]
pub struct BranchIfSubSuccessfulCommand(String);

impl BranchIfSubSuccessfulCommand {
    pub closed spec fn view(&self) -> CommandView {
        CommandView::BranchIfSub(self.0@)
    }
}

impl SedCommand for BranchIfSubSuccessfulCommand {
    fn execute(
        &self,
        line_state: &mut SedLineState,
        line_details: &SedLineInfo,
        hold_space: &mut String,
        pattern_space: &mut String,
    ) -> (r: CommandResult)
        ensures
            command_outcome(self.view(), *old(line_state), old(hold_space)@, old(pattern_space)@)
                == (CommandOutcome {
                state: *final(line_state),
                hold: final(hold_space)@,
                pattern: final(pattern_space)@,
                result: r@,
            }),
    {
        if line_state.substitution_successful {
            line_state.substitution_successful = false;
            if self.0.as_str().is_empty() {
                CommandResult::BranchToEnd
            } else {
                CommandResult::BranchToLabel(self.0.clone())
            }
        } else {
            CommandResult::Nothing
        }
    }
}

/// Builds [`BranchIfSubSuccessfulCommand`].
#[derive(Debug)]
pub struct BranchIfSubSuccessfulCommandFactory;

impl SingleLineArgumentCommandFactory for BranchIfSubSuccessfulCommandFactory {
    fn new(&self, current_parser: &mut ParserState, argument: String) -> (r: Result<
        Command,
        ParserError,
    >)
        ensures
            *final(current_parser) == *old(current_parser),
            r matches Ok(c) && c.view() == CommandView::BranchIfSub(trimmed(argument@)),
    {
        Ok(Command::BranchIfSub(BranchIfSubSuccessfulCommand(trim_chars(argument.as_str()))))
    }
}

} // verus!
