//! Commands, what running one yields, and the factories that build them
//! while a script is parsed.
use vstd::prelude::*;

use crate::commands::append::AppendCommand;
use crate::commands::branch::BranchCommand;
use crate::commands::branch_if_not_sub::BranchIfNotSubSuccessfulCommand;
use crate::commands::branch_if_sub::BranchIfSubSuccessfulCommand;
use crate::commands::change::ChangeCommand;
use crate::commands::delete::DeleteCommand;
use crate::commands::delete_first_line::DeleteFirstLineCommand;
use crate::commands::exchange::ExchangeCommand;
use crate::commands::get_append::GetAppendCommand;
use crate::commands::get_replace::GetReplaceCommand;
use crate::commands::hold_append::HoldAppendCommand;
use crate::commands::hold_replace::HoldReplaceCommand;
use crate::commands::insert::InsertCommand;
use crate::commands::label::LabelCommand;
use crate::commands::next::NextCommand;
use crate::commands::next_append::NextAppendCommand;
use crate::commands::print::PrintCommand;
use crate::commands::print_first_line::PrintFirstLineCommand;
use crate::commands::print_line_number::PrintLineNumberCommand;
use crate::commands::quit::QuitCommand;
use crate::commands::quit_noprint::QuitNoPrintCommand;
use crate::commands::read_file::ReadFileCommand;
use crate::commands::substitute::{substitution_result, ReplacementView, SubstituteCommand};
use crate::commands::transliterate::{transliterated, TransliterateCommand};
use crate::parser::{ParserError, ParserState};
use crate::program::{SedLineInfo, SedLineState};

verus! {

/// What a command asks the engine to do next.
#[derive(Debug)]
pub enum CommandResult {
    BranchToLabel(String),
    BranchToStart,
    BranchToEnd,
    Print(String),
    PrintLineNumber,
    QuitScript,
    ReadNextLine,
    ReadNextLineAppend,
    ReadFileAppend(String),
    Nothing,
    WriteFile(String, String),
}

/// Abstract view of a [`CommandResult`].
pub enum CommandResultView {
    BranchToLabel(Seq<char>),
    BranchToStart,
    BranchToEnd,
    Print(Seq<char>),
    PrintLineNumber,
    QuitScript,
    ReadNextLine,
    ReadNextLineAppend,
    ReadFileAppend(Seq<char>),
    Nothing,
    WriteFile(Seq<char>, Seq<char>),
}

impl View for CommandResult {
    type V = CommandResultView;

    open spec fn view(&self) -> CommandResultView {
        match self {
            CommandResult::BranchToLabel(l) => CommandResultView::BranchToLabel(l@),
            CommandResult::BranchToStart => CommandResultView::BranchToStart,
            CommandResult::BranchToEnd => CommandResultView::BranchToEnd,
            CommandResult::Print(s) => CommandResultView::Print(s@),
            CommandResult::PrintLineNumber => CommandResultView::PrintLineNumber,
            CommandResult::QuitScript => CommandResultView::QuitScript,
            CommandResult::ReadNextLine => CommandResultView::ReadNextLine,
            CommandResult::ReadNextLineAppend => CommandResultView::ReadNextLineAppend,
            CommandResult::ReadFileAppend(p) => CommandResultView::ReadFileAppend(p@),
            CommandResult::Nothing => CommandResultView::Nothing,
            CommandResult::WriteFile(p, s) => CommandResultView::WriteFile(p@, s@),
        }
    }
}

/// Abstract view of a [`Command`]: its kind and its arguments.
pub enum CommandView {
    Append(Seq<char>),
    Branch(Seq<char>),
    BranchIfNotSub(Seq<char>),
    BranchIfSub(Seq<char>),
    Change(Seq<char>),
    Delete,
    DeleteFirstLine,
    Exchange,
    GetAppend,
    GetReplace,
    HoldAppend,
    HoldReplace,
    Insert(Seq<char>),
    Label,
    Next,
    NextAppend,
    Print,
    PrintFirstLine,
    PrintLineNumber,
    Quit,
    QuitNoPrint,
    ReadFile(Seq<char>),
    Substitute {
        pattern: Seq<char>,
        case_insensitive: bool,
        replacement: ReplacementView,
        all: bool,
    },
    Transliterate { map: Seq<(char, char)>, all_ascii: bool },
    WriteFile(Seq<char>),
    WriteFileFirstLine(Seq<char>),
}

/// The line flags, hold space and pattern space after a command ran, and
/// what it asked for.
pub struct CommandOutcome {
    pub state: SedLineState,
    pub hold: Seq<char>,
    pub pattern: Seq<char>,
    pub result: CommandResultView,
}

/// The part of `s` before its first newline (all of `s` if it has none).
pub open spec fn first_line(s: Seq<char>) -> Seq<char> {
    s.take(newline_index(s))
}

/// Index of the first newline of `s`, or `s.len()` if there is none.
pub open spec fn newline_index(s: Seq<char>) -> int
    decreases s.len(),
{
    if s.len() == 0 {
        0
    } else if s[0] == '\n' {
        0
    } else {
        1 + newline_index(s.drop_first())
    }
}

pub(crate) proof fn lemma_newline_index(s: Seq<char>, k: int)
    requires
        0 <= k <= s.len(),
        forall|j: int| 0 <= j < k ==> s[j] != '\n',
        k < s.len() ==> s[k] == '\n',
    ensures
        newline_index(s) == k,
    decreases s.len(),
{
    if s.len() > 0 && k > 0 {
        lemma_newline_index(s.drop_first(), k - 1);
    }
}

/// Index of the first newline of `v`, or its length if it has none.
pub fn newline_position(v: &Vec<char>) -> (i: usize)
    ensures
        i == newline_index(v@),
        i <= v@.len(),
{
    let mut i: usize = 0;
    while i < v.len() && v[i] != '\n'
        invariant
            i <= v@.len(),
            forall|j: int| 0 <= j < i ==> v@[j] != '\n',
        decreases v.len() - i,
    {
        i = i + 1;
    }
    proof {
        lemma_newline_index(v@, i as int);
    }
    i
}

/// An outcome that changes nothing but may ask for something.
pub open spec fn unchanged(
    st: SedLineState,
    hold: Seq<char>,
    pattern: Seq<char>,
    result: CommandResultView,
) -> CommandOutcome {
    CommandOutcome { state: st, hold, pattern, result }
}

/// What running the command `c` does, given the line flags, the hold space
/// and the pattern space.
pub open spec fn command_outcome(
    c: CommandView,
    st: SedLineState,
    hold: Seq<char>,
    pattern: Seq<char>,
) -> CommandOutcome {
    match c {
        CommandView::Append(text) => unchanged(
            st,
            hold,
            pattern + seq!['\n'] + text,
            CommandResultView::Nothing,
        ),
        CommandView::Branch(label) => unchanged(
            st,
            hold,
            pattern,
            if label.len() == 0 {
                CommandResultView::BranchToEnd
            } else {
                CommandResultView::BranchToLabel(label)
            },
        ),
        CommandView::BranchIfNotSub(label) => unchanged(
            st,
            hold,
            pattern,
            if st.substitution_successful {
                CommandResultView::Nothing
            } else if label.len() == 0 {
                CommandResultView::BranchToEnd
            } else {
                CommandResultView::BranchToLabel(label)
            },
        ),
        CommandView::BranchIfSub(label) => if st.substitution_successful {
            CommandOutcome {
                state: SedLineState { substitution_successful: false, ..st },
                hold,
                pattern,
                result: if label.len() == 0 {
                    CommandResultView::BranchToEnd
                } else {
                    CommandResultView::BranchToLabel(label)
                },
            }
        } else {
            unchanged(st, hold, pattern, CommandResultView::Nothing)
        },
        CommandView::Change(text) => unchanged(st, hold, text, CommandResultView::Nothing),
        CommandView::Delete => CommandOutcome {
            state: SedLineState { implicit_print_at_end: false, ..st },
            hold,
            pattern: seq![],
            result: CommandResultView::BranchToEnd,
        },
        CommandView::DeleteFirstLine => if newline_index(pattern) < pattern.len() {
            unchanged(
                st,
                hold,
                pattern.skip(newline_index(pattern) + 1),
                CommandResultView::BranchToStart,
            )
        } else {
            CommandOutcome {
                state: SedLineState { implicit_print_at_end: false, ..st },
                hold,
                pattern: seq![],
                result: CommandResultView::BranchToEnd,
            }
        },
        CommandView::Exchange => unchanged(st, pattern, hold, CommandResultView::Nothing),
        CommandView::GetAppend => unchanged(
            st,
            hold,
            pattern + seq!['\n'] + hold,
            CommandResultView::Nothing,
        ),
        CommandView::GetReplace => unchanged(st, hold, hold, CommandResultView::Nothing),
        CommandView::HoldAppend => unchanged(
            st,
            hold + seq!['\n'] + pattern,
            pattern,
            CommandResultView::Nothing,
        ),
        CommandView::HoldReplace => unchanged(st, pattern, pattern, CommandResultView::Nothing),
        CommandView::Insert(text) => unchanged(
            st,
            hold,
            text + seq!['\n'] + pattern,
            CommandResultView::Nothing,
        ),
        CommandView::Label => unchanged(st, hold, pattern, CommandResultView::Nothing),
        CommandView::Next => CommandOutcome {
            state: SedLineState { substitution_successful: false, ..st },
            hold,
            pattern,
            result: CommandResultView::ReadNextLine,
        },
        CommandView::NextAppend => CommandOutcome {
            state: SedLineState { substitution_successful: false, ..st },
            hold,
            pattern,
            result: CommandResultView::ReadNextLineAppend,
        },
        CommandView::Print => unchanged(st, hold, pattern, CommandResultView::Print(pattern)),
        CommandView::PrintFirstLine => unchanged(
            st,
            hold,
            pattern,
            CommandResultView::Print(first_line(pattern)),
        ),
        CommandView::PrintLineNumber => unchanged(
            st,
            hold,
            pattern,
            CommandResultView::PrintLineNumber,
        ),
        CommandView::Quit => unchanged(st, hold, pattern, CommandResultView::QuitScript),
        CommandView::QuitNoPrint => CommandOutcome {
            state: SedLineState { implicit_print_at_end: false, ..st },
            hold,
            pattern: seq![],
            result: CommandResultView::QuitScript,
        },
        CommandView::ReadFile(path) => unchanged(
            st,
            hold,
            pattern,
            CommandResultView::ReadFileAppend(path),
        ),
        CommandView::Substitute { pattern: re, case_insensitive, replacement, all } => {
            match substitution_result(re, case_insensitive, replacement, all, pattern) {
                Some(new_pattern) => CommandOutcome {
                    state: SedLineState { substitution_successful: true, ..st },
                    hold,
                    pattern: new_pattern,
                    result: CommandResultView::Nothing,
                },
                None => unchanged(st, hold, pattern, CommandResultView::Nothing),
            }
        },
        CommandView::Transliterate { map, .. } => unchanged(
            st,
            hold,
            transliterated(map, pattern),
            CommandResultView::Nothing,
        ),
        CommandView::WriteFile(path) => unchanged(
            st,
            hold,
            pattern,
            CommandResultView::WriteFile(path, pattern),
        ),
        CommandView::WriteFileFirstLine(path) => unchanged(
            st,
            hold,
            pattern,
            CommandResultView::WriteFile(path, first_line(pattern)),
        ),
    }
}

/// Something that runs on a line: it may change the line flags, the hold
/// space and the pattern space, and says what the engine should do next.
pub trait SedCommand {
    fn execute(
        &self,
        line_state: &mut SedLineState,
        line_details: &SedLineInfo,
        hold_space: &mut String,
        pattern_space: &mut String,
    ) -> CommandResult;
}

/// Builds a command that takes a regex-like list of fenced fields and flags.
pub trait SubstitutionLikeCommandFactory {
    fn new(
        &self,
        current_parser: &mut ParserState,
        arguments: Vec<String>,
        flags: String,
    ) -> Result<Command, ParserError>;

    fn check_flag(&self, flag: char) -> bool;

    fn field_count(&self) -> usize;

    fn command_name(&self) -> &'static str;
}

/// Builds a command whose argument runs to the end of the line, `;` or `}`.
pub trait SingleLineArgumentCommandFactory {
    fn new(&self, current_parser: &mut ParserState, argument: String) -> Result<
        Command,
        ParserError,
    >;
}

/// Builds a command whose argument runs to the end of the line.
pub trait MultiLineArgumentCommandFactory {
    fn new(&self, current_parser: &mut ParserState, argument: String) -> Result<
        Command,
        ParserError,
    >;
}

/// Builds a command that takes no argument.
pub trait NoArgumentCommandFactory {
    fn new(&self, current_parser: &mut ParserState) -> Result<Command, ParserError>;
}

/// Any one of the commands of the language.
#[derive(Debug)]
pub enum Command {
    Append(AppendCommand),
    Branch(BranchCommand),
    BranchIfNotSub(BranchIfNotSubSuccessfulCommand),
    BranchIfSub(BranchIfSubSuccessfulCommand),
    Change(ChangeCommand),
    Delete(DeleteCommand),
    DeleteFirstLine(DeleteFirstLineCommand),
    Exchange(ExchangeCommand),
    GetAppend(GetAppendCommand),
    GetReplace(GetReplaceCommand),
    HoldAppend(HoldAppendCommand),
    HoldReplace(HoldReplaceCommand),
    Insert(InsertCommand),
    Label(LabelCommand),
    Next(NextCommand),
    NextAppend(NextAppendCommand),
    Print(PrintCommand),
    PrintFirstLine(PrintFirstLineCommand),
    PrintLineNumber(PrintLineNumberCommand),
    Quit(QuitCommand),
    QuitNoPrint(QuitNoPrintCommand),
    ReadFile(ReadFileCommand),
    Substitute(SubstituteCommand),
    Transliterate(TransliterateCommand),
    WriteFile(crate::commands::write_file::WriteFileCommand),
    WriteFileFirstLine(crate::commands::write_first_line::WriteFileFirstLineCommand),
}

impl Command {
    pub open spec fn view(&self) -> CommandView {
        match self {
            Command::Append(c) => c.view(),
            Command::Branch(c) => c.view(),
            Command::BranchIfNotSub(c) => c.view(),
            Command::BranchIfSub(c) => c.view(),
            Command::Change(c) => c.view(),
            Command::Delete(c) => CommandView::Delete,
            Command::DeleteFirstLine(c) => CommandView::DeleteFirstLine,
            Command::Exchange(c) => CommandView::Exchange,
            Command::GetAppend(c) => CommandView::GetAppend,
            Command::GetReplace(c) => CommandView::GetReplace,
            Command::HoldAppend(c) => CommandView::HoldAppend,
            Command::HoldReplace(c) => CommandView::HoldReplace,
            Command::Insert(c) => c.view(),
            Command::Label(c) => CommandView::Label,
            Command::Next(c) => CommandView::Next,
            Command::NextAppend(c) => CommandView::NextAppend,
            Command::Print(c) => CommandView::Print,
            Command::PrintFirstLine(c) => CommandView::PrintFirstLine,
            Command::PrintLineNumber(c) => CommandView::PrintLineNumber,
            Command::Quit(c) => CommandView::Quit,
            Command::QuitNoPrint(c) => CommandView::QuitNoPrint,
            Command::ReadFile(c) => c.view(),
            Command::Substitute(c) => c.view(),
            Command::Transliterate(c) => c.view(),
            Command::WriteFile(c) => c.view(),
            Command::WriteFileFirstLine(c) => c.view(),
        }
    }
}

impl SedCommand for Command {
    fn execute(
        &self,
        line_state: &mut SedLineState,
        line_details: &SedLineInfo,
        hold_space: &mut String,
        pattern_space: &mut String,
    ) -> (r: CommandResult)
        ensures
            command_outcome(self.view(), *old(line_state), old(hold_space)@, old(pattern_space)@)
                == (CommandOutcome {
                state: *final(line_state),
                hold: final(hold_space)@,
                pattern: final(pattern_space)@,
                result: r@,
            }),
    {
        match self {
            Command::Append(c) => c.execute(line_state, line_details, hold_space, pattern_space),
            Command::Branch(c) => c.execute(line_state, line_details, hold_space, pattern_space),
            Command::BranchIfNotSub(c) => c.execute(line_state, line_details, hold_space, pattern_space),
            Command::BranchIfSub(c) => c.execute(line_state, line_details, hold_space, pattern_space),
            Command::Change(c) => c.execute(line_state, line_details, hold_space, pattern_space),
            Command::Delete(c) => c.execute(line_state, line_details, hold_space, pattern_space),
            Command::DeleteFirstLine(c) => c.execute(line_state, line_details, hold_space, pattern_space),
            Command::Exchange(c) => c.execute(line_state, line_details, hold_space, pattern_space),
            Command::GetAppend(c) => c.execute(line_state, line_details, hold_space, pattern_space),
            Command::GetReplace(c) => c.execute(line_state, line_details, hold_space, pattern_space),
            Command::HoldAppend(c) => c.execute(line_state, line_details, hold_space, pattern_space),
            Command::HoldReplace(c) => c.execute(line_state, line_details, hold_space, pattern_space),
            Command::Insert(c) => c.execute(line_state, line_details, hold_space, pattern_space),
            Command::Label(c) => c.execute(line_state, line_details, hold_space, pattern_space),
            Command::Next(c) => c.execute(line_state, line_details, hold_space, pattern_space),
            Command::NextAppend(c) => c.execute(line_state, line_details, hold_space, pattern_space),
            Command::Print(c) => c.execute(line_state, line_details, hold_space, pattern_space),
            Command::PrintFirstLine(c) => c.execute(line_state, line_details, hold_space, pattern_space),
            Command::PrintLineNumber(c) => c.execute(line_state, line_details, hold_space, pattern_space),
            Command::Quit(c) => c.execute(line_state, line_details, hold_space, pattern_space),
            Command::QuitNoPrint(c) => c.execute(line_state, line_details, hold_space, pattern_space),
            Command::ReadFile(c) => c.execute(line_state, line_details, hold_space, pattern_space),
            Command::Substitute(c) => c.execute(line_state, line_details, hold_space, pattern_space),
            Command::Transliterate(c) => c.execute(line_state, line_details, hold_space, pattern_space),
            Command::WriteFile(c) => c.execute(line_state, line_details, hold_space, pattern_space),
            Command::WriteFileFirstLine(c) => c.execute(line_state, line_details, hold_space, pattern_space),
        }
    }
}

} // verus!
