use vstd::prelude::*;

use crate::parser::parsecommand::{
    command_outcome, Command, CommandOutcome, CommandResult, CommandView, MultiLineArgumentCommandFactory, SedCommand,
};
use crate::parser::{ParserError, ParserState};
use crate::program::{SedLineInfo, SedLineState};

verus! {

/// `i text`: puts the text and a newline in front of the pattern space.
#[derive(Debug)]
pub struct InsertCommand(String);

impl InsertCommand {
    pub closed spec fn view(&self) -> CommandView {
        CommandView::Insert(self.0@)
    }
}

impl SedCommand for InsertCommand {
    fn execute(
        &self,
        line_state: &mut SedLineState,
        line_details: &SedLineInfo,
        hold_space: &mut String,
        pattern_space: &mut String,
    ) -> (r: CommandResult)
        ensures
            command_outcome(self.view(), *old(line_state), old(hold_space)@, old(pattern_space)@)
                == (CommandOutcome {
                state: *final(line_state),
                hold: final(hold_space)@,
                pattern: final(pattern_space)@,
                result: r@,
            }),
    {
        let mut s = self.0.clone();
        s.push('\n');
        crate::text::push_string(&mut s, pattern_space.as_str());
        assert(s@ =~= self.0@ + seq!['\n'] + old(pattern_space)@);
        *pattern_space = s;
        CommandResult::Nothing
    }
}

/// Builds [`InsertCommand`].
#[derive(Debug)]
pub struct InsertCommandFactory;

impl MultiLineArgumentCommandFactory for InsertCommandFactory {
    fn new(&self, current_parser: &mut ParserState, argument: String) -> (r: Result<
        Command,
        ParserError,
    >)
        ensures
            *final(current_parser) == *old(current_parser),
            r matches Ok(c) && c.view() == CommandView::Insert(argument@),
    {
        Ok(Command::Insert(InsertCommand(argument)))
    }
}

} // verus!
