use vstd::prelude::*;

use crate::parser::parsecommand::{
    command_outcome, Command, CommandOutcome, CommandResult, CommandView, SedCommand,
    SingleLineArgumentCommandFactory,
};
use crate::parser::{ParserError, ParserErrorView, ParserState, ParserStateView};
use crate::program::{label_lookup, SedLineInfo, SedLineState};

verus! {

/// `: label`: marks a place to branch to; does nothing when run.
#[derive(Debug)]
pub struct LabelCommand;

impl SedCommand for LabelCommand {
    fn execute(
        &self,
        line_state: &mut SedLineState,
        line_details: &SedLineInfo,
        hold_space: &mut String,
        pattern_space: &mut String,
    ) -> (r: CommandResult)
        ensures
            command_outcome(CommandView::Label, *old(line_state), old(hold_space)@, old(pattern_space)@)
                == (CommandOutcome {
                state: *final(line_state),
                hold: final(hold_space)@,
                pattern: final(pattern_space)@,
                result: r@,
            }),
    {
        CommandResult::Nothing
    }
}

impl SingleLineArgumentCommandFactory for LabelCommand {
    /// Defines the label at the current statement index.
    fn new(&self, current_parser: &mut ParserState, argument: String) -> (r: Result<
        Command,
        ParserError,
    >)
        ensures
            match label_lookup(old(current_parser)@.labels, argument@) {
                Some(_) => {
                    &&& r matches Err(e) && e@ == ParserErrorView::DuplicateLabel(argument@)
                    &&& *final(current_parser) == *old(current_parser)
                },
                None => {
                    &&& r matches Ok(c) && c.view() == CommandView::Label
                    &&& final(current_parser)@ == (ParserStateView {
                        labels: old(current_parser)@.labels.push(
                            (argument@, old(current_parser)@.stmts.len() as usize),
                        ),
                        stmts: old(current_parser)@.stmts,
                    })
                },
            },
    {
        match current_parser.define_label(argument) {
            Ok(()) => Ok(Command::Label(LabelCommand)),
            Err(e) => Err(e),
        }
    }
}

} // verus!
