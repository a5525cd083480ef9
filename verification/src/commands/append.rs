use vstd::prelude::*;

use crate::parser::parsecommand::{
    command_outcome, Command, CommandOutcome, CommandResult, CommandView, MultiLineArgumentCommandFactory, SedCommand,
};
use crate::parser::{ParserError, ParserState};
use crate::program::{SedLineInfo, SedLineState};

verus! {

/// `a text`: appends a newline and the text to the pattern space.
#[derive(Debug)]
pub struct AppendCommand(String);

impl AppendCommand {
    pub closed spec fn view(&self) -> CommandView {
        CommandView::Append(self.0@)
    }
}

impl SedCommand for AppendCommand {
    fn execute(
        &self,
        line_state: &mut SedLineState,
        line_details: &SedLineInfo,
        hold_space: &mut String,
        pattern_space: &mut String,
    ) -> (r: CommandResult)
        ensures
            command_outcome(self.view(), *old(line_state), old(hold_space)@, old(pattern_space)@)
                == (CommandOutcome {
                state: *final(line_state),
                hold: final(hold_space)@,
                pattern: final(pattern_space)@,
                result: r@,
            }),
    {
        pattern_space.push('\n');
        crate::text::push_string(pattern_space, self.0.as_str());
        assert(pattern_space@ =~= old(pattern_space)@ + seq!['\n'] + self.0@);
        CommandResult::Nothing
    }
}

/// Builds [`AppendCommand`].
#[derive(Debug)]
pub struct AppendCommandFactory;

impl MultiLineArgumentCommandFactory for AppendCommandFactory {
    fn new(&self, current_parser: &mut ParserState, argument: String) -> (r: Result<
        Command,
        ParserError,
    >)
        ensures
            *final(current_parser) == *old(current_parser),
            r matches Ok(c) && c.view() == CommandView::Append(argument@),
    {
        Ok(Command::Append(AppendCommand(argument)))
    }
}

} // verus!
