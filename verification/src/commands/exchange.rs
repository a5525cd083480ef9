use vstd::prelude::*;

use crate::parser::parsecommand::{
    command_outcome, Command, CommandOutcome, CommandResult, CommandView, NoArgumentCommandFactory, SedCommand,
};
use crate::parser::{ParserError, ParserState};
use crate::program::{SedLineInfo, SedLineState};

verus! {

/// `x`: swaps the hold space and the pattern space.
#[derive(Debug)]
pub struct ExchangeCommand;

impl SedCommand for ExchangeCommand {
    fn execute(
        &self,
        line_state: &mut SedLineState,
        line_details: &SedLineInfo,
        hold_space: &mut String,
        pattern_space: &mut String,
    ) -> (r: CommandResult)
        ensures
            command_outcome(CommandView::Exchange, *old(line_state), old(hold_space)@, old(pattern_space)@)
                == (CommandOutcome {
                state: *final(line_state),
                hold: final(hold_space)@,
                pattern: final(pattern_space)@,
                result: r@,
            }),
    {
        std::mem::swap(hold_space, pattern_space);
        CommandResult::Nothing
    }
}

impl NoArgumentCommandFactory for ExchangeCommand {
    fn new(&self, current_parser: &mut ParserState) -> (r: Result<Command, ParserError>)
        ensures
            *final(current_parser) == *old(current_parser),
            r matches Ok(c) && c.view() == CommandView::Exchange,
    {
        Ok(Command::Exchange(ExchangeCommand))
    }
}

/// Running `x` twice restores the hold space and the pattern space.
pub proof fn lemma_exchange_twice(st: SedLineState, hold: Seq<char>, pattern: Seq<char>)
    ensures
        ({
            let o1 = command_outcome(CommandView::Exchange, st, hold, pattern);
            let o2 = command_outcome(CommandView::Exchange, o1.state, o1.hold, o1.pattern);
            o2.hold == hold && o2.pattern == pattern && o2.state == st
        }),
{
}

} // verus!
