//! The script parser: the table of command letters, the state kept while
//! statements are collected, and the errors a script can raise.
mod parse;
pub mod parsecommand;

use vstd::prelude::*;

use crate::address_range::AddressRange;
use crate::commands::append::AppendCommandFactory;
use crate::commands::branch::BranchCommandFactory;
use crate::commands::branch_if_not_sub::BranchIfNotSubSuccessfulCommandFactory;
use crate::commands::branch_if_sub::BranchIfSubSuccessfulCommandFactory;
use crate::commands::change::ChangeCommandFactory;
use crate::commands::delete::DeleteCommand;
use crate::commands::delete_first_line::DeleteFirstLineCommand;
use crate::commands::exchange::ExchangeCommand;
use crate::commands::get_append::GetAppendCommand;
use crate::commands::get_replace::GetReplaceCommand;
use crate::commands::hold_append::HoldAppendCommand;
use crate::commands::hold_replace::HoldReplaceCommand;
use crate::commands::insert::InsertCommandFactory;
use crate::commands::label::LabelCommand;
use crate::commands::next::NextCommand;
use crate::commands::next_append::NextAppendCommand;
use crate::commands::print::PrintCommand;
use crate::commands::print_first_line::PrintFirstLineCommand;
use crate::commands::print_line_number::PrintLineNumberCommand;
use crate::commands::quit::QuitCommand;
use crate::commands::quit_noprint::QuitNoPrintCommand;
use crate::commands::read_file::ReadFileCommandFactory;
use crate::commands::substitute::{substitute_build, SubstituteCommandFactory};
use crate::commands::transliterate::{transliterate_build, TransliterateCommandFactory};
use crate::commands::write_file::WriteFileCommandFactory;
use crate::commands::write_first_line::WriteFileFirstLineCommandFactory;
use crate::parser::parsecommand::{
    Command, CommandView, MultiLineArgumentCommandFactory, NoArgumentCommandFactory,
    SingleLineArgumentCommandFactory, SubstitutionLikeCommandFactory,
};
use crate::program::{
    blocks_view, label_lookup, labels_view, BlockTypeView, BlockView, ProgramView, SedProgram,
    SedProgramBlock,
};
use crate::text::trimmed;

pub use parse::{
    parse_multiline_string, parse_singleline_string, parse_string_until_end,
    parse_substitution_style_argument, parse_usize, skip_inline_ws, skip_line,
    skip_ws_semicolons, ScriptReader, StringEnd, parse_script_spec, parse_block_spec,
    build_command_spec, parse_substitution_spec, parse_flags_spec, parse_fields_spec,
    parse_address_spec, parse_address_range_spec, fenced_field, fenced_regex, singleline_spec,
    multiline_spec, string_until_end, scan_string, skip_inline_ws_spec, skip_line_spec,
    skip_ws_semicolons_spec, parse_usize_spec, digits_value, digits_end, char_at, is_end,
    inverted_view, state_valid, lemma_parsed_program_valid, lemma_parse_block_valid,
};



verus! {

/// Parses scripts, given a table from command letters to command builders.
pub struct Parser {
    commands: Vec<(char, CommandParsingSpec)>,
}

/// The statements and labels collected so far while a script is parsed.
pub struct ParserState {
    labels: Vec<(String, usize)>,
    stmts: Vec<SedProgramBlock>,
}

/// Abstract view of a [`ParserState`].
pub struct ParserStateView {
    pub labels: Seq<(Seq<char>, usize)>,
    pub stmts: Seq<BlockView>,
}

/// Why a script was rejected.
#[derive(Debug)]
pub enum ParserError {
    DuplicateLabel(String),
    IncorrectArgumentCount,
    InvalidArguments,
    RegexError(regex::Error),
    BadAddressNegation,
    BadNumberLiteral,
    UnexpectedEof,
    IncompleteAddressRange,
    UnknownCommand(char),
    UnmatchedBracket,
    BackslashFence,
    UnknownFlag(String, char),
    WhitespaceFence,
    EmptyRegularExpression,
}

/// Abstract view of a [`ParserError`] (the regex error is not looked into).
pub enum ParserErrorView {
    DuplicateLabel(Seq<char>),
    IncorrectArgumentCount,
    InvalidArguments,
    RegexError,
    BadAddressNegation,
    BadNumberLiteral,
    UnexpectedEof,
    IncompleteAddressRange,
    UnknownCommand(char),
    UnmatchedBracket,
    BackslashFence,
    UnknownFlag(Seq<char>, char),
    WhitespaceFence,
    EmptyRegularExpression,
}

impl View for ParserError {
    type V = ParserErrorView;

    open spec fn view(&self) -> ParserErrorView {
        match self {
            ParserError::DuplicateLabel(l) => ParserErrorView::DuplicateLabel(l@),
            ParserError::IncorrectArgumentCount => ParserErrorView::IncorrectArgumentCount,
            ParserError::InvalidArguments => ParserErrorView::InvalidArguments,
            ParserError::RegexError(_) => ParserErrorView::RegexError,
            ParserError::BadAddressNegation => ParserErrorView::BadAddressNegation,
            ParserError::BadNumberLiteral => ParserErrorView::BadNumberLiteral,
            ParserError::UnexpectedEof => ParserErrorView::UnexpectedEof,
            ParserError::IncompleteAddressRange => ParserErrorView::IncompleteAddressRange,
            ParserError::UnknownCommand(c) => ParserErrorView::UnknownCommand(*c),
            ParserError::UnmatchedBracket => ParserErrorView::UnmatchedBracket,
            ParserError::BackslashFence => ParserErrorView::BackslashFence,
            ParserError::UnknownFlag(n, c) => ParserErrorView::UnknownFlag(n@, *c),
            ParserError::WhitespaceFence => ParserErrorView::WhitespaceFence,
            ParserError::EmptyRegularExpression => ParserErrorView::EmptyRegularExpression,
        }
    }
}

impl View for ParserState {
    type V = ParserStateView;

    closed spec fn view(&self) -> ParserStateView {
        ParserStateView { labels: labels_view(self.labels@), stmts: blocks_view(self.stmts@) }
    }
}

/// The state after `define_label(name)` on `st`: an error if the name is
/// taken, else the label is bound to the next statement index.
pub open spec fn define_label_spec(st: ParserStateView, name: Seq<char>) -> Result<
    ParserStateView,
    ParserErrorView,
> {
    match label_lookup(st.labels, name) {
        Some(_) => Err(ParserErrorView::DuplicateLabel(name)),
        None => Ok(
            ParserStateView { labels: st.labels.push((name, st.stmts.len() as usize)), stmts: st.stmts },
        ),
    }
}

impl ParserState {
    /// No statements and no labels.
    pub fn new() -> (r: ParserState)
        ensures
            r@ == (ParserStateView { labels: seq![], stmts: seq![] }),
    {
        let r = ParserState { labels: Vec::new(), stmts: Vec::new() };
        assert(r@.labels =~= seq![]);
        assert(r@.stmts =~= seq![]);
        r
    }

    /// Number of statements collected so far.
    pub fn len(&self) -> (r: usize)
        ensures
            r == self@.stmts.len(),
    {
        self.stmts.len()
    }

    /// Binds `label` to the index of the next statement; fails if it is
    /// already bound.
    pub fn define_label(&mut self, label: String) -> (r: Result<(), ParserError>)
        ensures
            match define_label_spec(old(self)@, label@) {
                Ok(st) => r is Ok && final(self)@ == st,
                Err(e) => r matches Err(e2) && e2@ == e && *final(self) == *old(self),
            },
    {
        let mut i: usize = 0;
        assert(self@.labels.skip(0) =~= self@.labels);
        while i < self.labels.len()
            invariant
                i <= self.labels@.len(),
                label_lookup(self@.labels, label@) == label_lookup(self@.labels.skip(i as int), label@),
            decreases self.labels.len() - i,
        {
            let ghost rest = self@.labels.skip(i as int);
            assert(rest[0] == (self.labels@[i as int].0@, self.labels@[i as int].1));
            if crate::text::strings_equal(self.labels[i].0.as_str(), label.as_str()) {
                return Err(ParserError::DuplicateLabel(label));
            }
            assert(rest.drop_first() =~= self@.labels.skip(i + 1));
            i = i + 1;
        }
        let n = self.stmts.len();
        let ghost old_labels = self.labels@;
        self.labels.push((label, n));
        proof {
            assert(labels_view(self.labels@) =~= labels_view(old_labels).push((label@, n)));
        }
        Ok(())
    }

    /// The collected statements and labels as a program.
    fn into_program(self) -> (r: SedProgram)
        ensures
            r@ == (ProgramView { commands: self@.stmts, labels: self@.labels }),
    {
        SedProgram { commands: self.stmts, labels: self.labels }
    }

    /// Appends a statement running `cmd` on the lines `addr` selects.
    fn push(&mut self, cmd: Command, addr: AddressRange)
        ensures
            final(self)@ == (ParserStateView {
                labels: old(self)@.labels,
                stmts: old(self)@.stmts.push(
                    BlockView { command: BlockTypeView::SingleCommand(cmd.view()), filter: addr@ },
                ),
            }),
    {
        let ghost old_stmts = self.stmts@;
        let b = SedProgramBlock { command: crate::program::BlockType::SingleCommand(cmd), filter: addr };
        self.stmts.push(b);
        proof {
            assert(blocks_view(self.stmts@) =~= blocks_view(old_stmts).push(b@));
        }
    }

    /// Appends a jump over a block that is yet to be parsed, taken on the
    /// lines `filter` selects; returns its index, for [`Self::close_guard`].
    fn open_guard(&mut self, filter: AddressRange) -> (r: usize)
        ensures
            r == old(self)@.stmts.len(),
            final(self)@ == (ParserStateView {
                labels: old(self)@.labels,
                stmts: old(self)@.stmts.push(
                    BlockView { command: BlockTypeView::BlockBranch(0), filter: filter@ },
                ),
            }),
    {
        let ghost old_stmts = self.stmts@;
        let n = self.stmts.len();
        let b = SedProgramBlock { command: crate::program::BlockType::BlockBranch(0), filter };
        self.stmts.push(b);
        proof {
            assert(blocks_view(self.stmts@) =~= blocks_view(old_stmts).push(b@));
        }
        n
    }

    /// Points the jump at `jump_idx` past the last statement collected.
    fn close_guard(&mut self, jump_idx: usize)
        requires
            jump_idx < old(self)@.stmts.len(),
        ensures
            final(self)@ == (ParserStateView {
                labels: old(self)@.labels,
                stmts: old(self)@.stmts.update(
                    jump_idx as int,
                    BlockView {
                        command: BlockTypeView::BlockBranch(old(self)@.stmts.len() as usize),
                        filter: old(self)@.stmts[jump_idx as int].filter,
                    },
                ),
            }),
    {
        let ghost old_stmts = self.stmts@;
        let n = self.stmts.len();
        let old_block = self.stmts.remove(jump_idx);
        let b = SedProgramBlock {
            command: crate::program::BlockType::BlockBranch(n),
            filter: old_block.filter,
        };
        self.stmts.insert(jump_idx, b);
        proof {
            assert(old_block == old_stmts[jump_idx as int]);
            assert(blocks_view(self.stmts@) =~= blocks_view(old_stmts).update(jump_idx as int, b@));
        }
    }
}

/// The built-in commands that take fenced fields and flags.
#[derive(Debug, Clone, Copy, PartialEq, Eq)]
pub enum SubstitutionLikeSpec {
    Substitute,
    Transliterate,
}

/// The built-in commands whose argument runs to the end of the line, `;` or `}`.
#[derive(Debug, Clone, Copy, PartialEq, Eq)]
pub enum SingleLineSpec {
    Label,
    ReadFile,
    Branch,
    BranchIfSub,
    BranchIfNotSub,
    WriteFile,
    WriteFileFirstLine,
}

/// The built-in commands whose argument runs to the end of the line.
#[derive(Debug, Clone, Copy, PartialEq, Eq)]
pub enum MultiLineSpec {
    Append,
    Insert,
    Change,
}

/// The built-in commands that take no argument.
#[derive(Debug, Clone, Copy, PartialEq, Eq)]
pub enum NoArgumentSpec {
    PrintLineNumber,
    Quit,
    QuitNoPrint,
    Delete,
    DeleteFirstLine,
    HoldReplace,
    HoldAppend,
    GetReplace,
    GetAppend,
    Next,
    NextAppend,
    Print,
    PrintFirstLine,
    Exchange,
}

/// How the argument of a command letter is parsed, and what it builds.
#[derive(Debug, Clone, Copy, PartialEq, Eq)]
pub enum CommandParsingSpec {
    SubstitutionLike(SubstitutionLikeSpec),
    SingleLineArgument(SingleLineSpec),
    MultilineArgument(MultiLineSpec),
    NoArgument(NoArgumentSpec),
}

/// What a single-line command builds from its argument, and the parser state after.
pub open spec fn single_line_build(k: SingleLineSpec, st: ParserStateView, arg: Seq<char>) -> Result<
    (ParserStateView, CommandView),
    ParserErrorView,
> {
    match k {
        SingleLineSpec::Label => match define_label_spec(st, arg) {
            Ok(st2) => Ok((st2, CommandView::Label)),
            Err(e) => Err(e),
        },
        SingleLineSpec::ReadFile => Ok((st, CommandView::ReadFile(arg))),
        SingleLineSpec::Branch => Ok((st, CommandView::Branch(trimmed(arg)))),
        SingleLineSpec::BranchIfSub => Ok((st, CommandView::BranchIfSub(trimmed(arg)))),
        SingleLineSpec::BranchIfNotSub => Ok((st, CommandView::BranchIfNotSub(arg))),
        SingleLineSpec::WriteFile => Ok((st, CommandView::WriteFile(arg))),
        SingleLineSpec::WriteFileFirstLine => Ok((st, CommandView::WriteFileFirstLine(arg))),
    }
}

/// What a multi-line command builds from its argument.
pub open spec fn multi_line_build(k: MultiLineSpec, arg: Seq<char>) -> CommandView {
    match k {
        MultiLineSpec::Append => CommandView::Append(arg),
        MultiLineSpec::Insert => CommandView::Insert(arg),
        MultiLineSpec::Change => CommandView::Change(arg),
    }
}

/// What a command without argument builds.
pub open spec fn no_argument_build(k: NoArgumentSpec) -> CommandView {
    match k {
        NoArgumentSpec::PrintLineNumber => CommandView::PrintLineNumber,
        NoArgumentSpec::Quit => CommandView::Quit,
        NoArgumentSpec::QuitNoPrint => CommandView::QuitNoPrint,
        NoArgumentSpec::Delete => CommandView::Delete,
        NoArgumentSpec::DeleteFirstLine => CommandView::DeleteFirstLine,
        NoArgumentSpec::HoldReplace => CommandView::HoldReplace,
        NoArgumentSpec::HoldAppend => CommandView::HoldAppend,
        NoArgumentSpec::GetReplace => CommandView::GetReplace,
        NoArgumentSpec::GetAppend => CommandView::GetAppend,
        NoArgumentSpec::Next => CommandView::Next,
        NoArgumentSpec::NextAppend => CommandView::NextAppend,
        NoArgumentSpec::Print => CommandView::Print,
        NoArgumentSpec::PrintFirstLine => CommandView::PrintFirstLine,
        NoArgumentSpec::Exchange => CommandView::Exchange,
    }
}

/// What a substitution-like command builds from its fields and flags.
pub open spec fn substitution_like_build(
    k: SubstitutionLikeSpec,
    fields: Seq<Seq<char>>,
    flags: Seq<char>,
) -> Result<CommandView, ParserErrorView> {
    match k {
        SubstitutionLikeSpec::Substitute => substitute_build(fields, flags),
        SubstitutionLikeSpec::Transliterate => transliterate_build(fields),
    }
}

/// Whether the substitution-like command accepts the flag.
pub open spec fn accepts_flag(k: SubstitutionLikeSpec, flag: char) -> bool {
    match k {
        SubstitutionLikeSpec::Substitute => flag == 'i' || flag == 'g',
        SubstitutionLikeSpec::Transliterate => false,
    }
}

/// The name a substitution-like command reports in errors.
pub open spec fn command_name_of(k: SubstitutionLikeSpec) -> Seq<char> {
    match k {
        SubstitutionLikeSpec::Substitute => seq!['s', 'u', 'b', 's', 't', 'i', 't', 'u', 't', 'i', 'o', 'n'],
        SubstitutionLikeSpec::Transliterate => seq![
            't', 'r', 'a', 'n', 's', 'l', 'i', 't', 'e', 'r', 'a', 't', 'i', 'o', 'n'
        ],
    }
}

impl SubstitutionLikeSpec {
    /// Builds the command from its fields and flags.
    pub fn build(&self, current_parser: &mut ParserState, arguments: Vec<String>, flags: String) -> (r:
        Result<Command, ParserError>)
        ensures
            *final(current_parser) == *old(current_parser),
            match substitution_like_build(*self, arguments.deep_view(), flags@) {
                Ok(c) => r matches Ok(c2) && c2.view() == c,
                Err(e) => r matches Err(e2) && e2@ == e,
            },
    {
        match self {
            SubstitutionLikeSpec::Substitute => SubstituteCommandFactory.new(
                current_parser,
                arguments,
                flags,
            ),
            SubstitutionLikeSpec::Transliterate => TransliterateCommandFactory.new(
                current_parser,
                arguments,
                flags,
            ),
        }
    }

    /// Whether the command accepts `flag`.
    pub fn check_flag(&self, flag: char) -> (r: bool)
        ensures
            r == accepts_flag(*self, flag),
    {
        match self {
            SubstitutionLikeSpec::Substitute => SubstituteCommandFactory.check_flag(flag),
            SubstitutionLikeSpec::Transliterate => TransliterateCommandFactory.check_flag(flag),
        }
    }

    /// Number of fenced fields the command takes.
    pub fn field_count(&self) -> (r: usize)
        ensures
            r == 2,
    {
        match self {
            SubstitutionLikeSpec::Substitute => SubstituteCommandFactory.field_count(),
            SubstitutionLikeSpec::Transliterate => TransliterateCommandFactory.field_count(),
        }
    }

    /// The name the command reports in errors.
    pub fn command_name(&self) -> (r: String)
        ensures
            r@ == command_name_of(*self),
    {
        match self {
            SubstitutionLikeSpec::Substitute => crate::commands::substitute::substitution_name(),
            SubstitutionLikeSpec::Transliterate => crate::commands::transliterate::transliteration_name(),
        }
    }
}

impl SingleLineSpec {
    /// Builds the command from its argument.
    pub fn build(&self, current_parser: &mut ParserState, argument: String) -> (r: Result<
        Command,
        ParserError,
    >)
        ensures
            match single_line_build(*self, old(current_parser)@, argument@) {
                Ok((st, c)) => r matches Ok(c2) && c2.view() == c && final(current_parser)@ == st,
                Err(e) => r matches Err(e2) && e2@ == e && *final(current_parser) == *old(
                    current_parser,
                ),
            },
    {
        match self {
            SingleLineSpec::Label => LabelCommand.new(current_parser, argument),
            SingleLineSpec::ReadFile => ReadFileCommandFactory.new(current_parser, argument),
            SingleLineSpec::Branch => BranchCommandFactory.new(current_parser, argument),
            SingleLineSpec::BranchIfSub => BranchIfSubSuccessfulCommandFactory.new(
                current_parser,
                argument,
            ),
            SingleLineSpec::BranchIfNotSub => BranchIfNotSubSuccessfulCommandFactory.new(
                current_parser,
                argument,
            ),
            SingleLineSpec::WriteFile => WriteFileCommandFactory.new(current_parser, argument),
            SingleLineSpec::WriteFileFirstLine => WriteFileFirstLineCommandFactory.new(
                current_parser,
                argument,
            ),
        }
    }
}

impl MultiLineSpec {
    /// Builds the command from its argument.
    pub fn build(&self, current_parser: &mut ParserState, argument: String) -> (r: Result<
        Command,
        ParserError,
    >)
        ensures
            *final(current_parser) == *old(current_parser),
            r matches Ok(c) && c.view() == multi_line_build(*self, argument@),
    {
        match self {
            MultiLineSpec::Append => AppendCommandFactory.new(current_parser, argument),
            MultiLineSpec::Insert => InsertCommandFactory.new(current_parser, argument),
            MultiLineSpec::Change => ChangeCommandFactory.new(current_parser, argument),
        }
    }
}

impl NoArgumentSpec {
    /// Builds the command.
    pub fn build(&self, current_parser: &mut ParserState) -> (r: Result<Command, ParserError>)
        ensures
            *final(current_parser) == *old(current_parser),
            r matches Ok(c) && c.view() == no_argument_build(*self),
    {
        match self {
            NoArgumentSpec::PrintLineNumber => PrintLineNumberCommand.new(current_parser),
            NoArgumentSpec::Quit => QuitCommand.new(current_parser),
            NoArgumentSpec::QuitNoPrint => QuitNoPrintCommand.new(current_parser),
            NoArgumentSpec::Delete => DeleteCommand.new(current_parser),
            NoArgumentSpec::DeleteFirstLine => DeleteFirstLineCommand.new(current_parser),
            NoArgumentSpec::HoldReplace => HoldReplaceCommand.new(current_parser),
            NoArgumentSpec::HoldAppend => HoldAppendCommand.new(current_parser),
            NoArgumentSpec::GetReplace => GetReplaceCommand.new(current_parser),
            NoArgumentSpec::GetAppend => GetAppendCommand.new(current_parser),
            NoArgumentSpec::Next => NextCommand.new(current_parser),
            NoArgumentSpec::NextAppend => NextAppendCommand.new(current_parser),
            NoArgumentSpec::Print => PrintCommand.new(current_parser),
            NoArgumentSpec::PrintFirstLine => PrintFirstLineCommand.new(current_parser),
            NoArgumentSpec::Exchange => ExchangeCommand.new(current_parser),
        }
    }
}

/// The entry of the first pair of `table` whose letter is `c`.
pub open spec fn lookup_command(table: Seq<(char, CommandParsingSpec)>, c: char) -> Option<
    CommandParsingSpec,
>
    decreases table.len(),
{
    if table.len() == 0 {
        None
    } else if table[0].0 == c {
        Some(table[0].1)
    } else {
        lookup_command(table.drop_first(), c)
    }
}

/// The built-in command table.
pub open spec fn default_command_table() -> Seq<(char, CommandParsingSpec)> {
    seq![
        (':', CommandParsingSpec::SingleLineArgument(SingleLineSpec::Label)),
        ('=', CommandParsingSpec::NoArgument(NoArgumentSpec::PrintLineNumber)),
        ('a', CommandParsingSpec::MultilineArgument(MultiLineSpec::Append)),
        ('i', CommandParsingSpec::MultilineArgument(MultiLineSpec::Insert)),
        ('q', CommandParsingSpec::NoArgument(NoArgumentSpec::Quit)),
        ('Q', CommandParsingSpec::NoArgument(NoArgumentSpec::QuitNoPrint)),
        ('r', CommandParsingSpec::SingleLineArgument(SingleLineSpec::ReadFile)),
        ('b', CommandParsingSpec::SingleLineArgument(SingleLineSpec::Branch)),
        ('c', CommandParsingSpec::MultilineArgument(MultiLineSpec::Change)),
        ('d', CommandParsingSpec::NoArgument(NoArgumentSpec::Delete)),
        ('D', CommandParsingSpec::NoArgument(NoArgumentSpec::DeleteFirstLine)),
        ('h', CommandParsingSpec::NoArgument(NoArgumentSpec::HoldReplace)),
        ('H', CommandParsingSpec::NoArgument(NoArgumentSpec::HoldAppend)),
        ('g', CommandParsingSpec::NoArgument(NoArgumentSpec::GetReplace)),
        ('G', CommandParsingSpec::NoArgument(NoArgumentSpec::GetAppend)),
        ('n', CommandParsingSpec::NoArgument(NoArgumentSpec::Next)),
        ('N', CommandParsingSpec::NoArgument(NoArgumentSpec::NextAppend)),
        ('p', CommandParsingSpec::NoArgument(NoArgumentSpec::Print)),
        ('P', CommandParsingSpec::NoArgument(NoArgumentSpec::PrintFirstLine)),
        ('s', CommandParsingSpec::SubstitutionLike(SubstitutionLikeSpec::Substitute)),
        ('t', CommandParsingSpec::SingleLineArgument(SingleLineSpec::BranchIfSub)),
        ('T', CommandParsingSpec::SingleLineArgument(SingleLineSpec::BranchIfNotSub)),
        ('w', CommandParsingSpec::SingleLineArgument(SingleLineSpec::WriteFile)),
        ('W', CommandParsingSpec::SingleLineArgument(SingleLineSpec::WriteFileFirstLine)),
        ('x', CommandParsingSpec::NoArgument(NoArgumentSpec::Exchange)),
        ('y', CommandParsingSpec::SubstitutionLike(SubstitutionLikeSpec::Transliterate)),
    ]
}

impl Parser {
    /// The letter table of this parser.
    pub closed spec fn table(&self) -> Seq<(char, CommandParsingSpec)> {
        self.commands@
    }

    /// A parser that knows no command.
    pub fn empty() -> (r: Self)
        ensures
            r.table() == Seq::<(char, CommandParsingSpec)>::empty(),
    {
        Self { commands: Vec::new() }
    }

    /// A parser that knows the built-in commands.
    pub fn new() -> (r: Self)
        ensures
            r.table() == default_command_table(),
    {
        let mut v: Vec<(char, CommandParsingSpec)> = Vec::new();
        v.push((':', CommandParsingSpec::SingleLineArgument(SingleLineSpec::Label)));
        v.push(('=', CommandParsingSpec::NoArgument(NoArgumentSpec::PrintLineNumber)));
        v.push(('a', CommandParsingSpec::MultilineArgument(MultiLineSpec::Append)));
        v.push(('i', CommandParsingSpec::MultilineArgument(MultiLineSpec::Insert)));
        v.push(('q', CommandParsingSpec::NoArgument(NoArgumentSpec::Quit)));
        v.push(('Q', CommandParsingSpec::NoArgument(NoArgumentSpec::QuitNoPrint)));
        v.push(('r', CommandParsingSpec::SingleLineArgument(SingleLineSpec::ReadFile)));
        v.push(('b', CommandParsingSpec::SingleLineArgument(SingleLineSpec::Branch)));
        v.push(('c', CommandParsingSpec::MultilineArgument(MultiLineSpec::Change)));
        v.push(('d', CommandParsingSpec::NoArgument(NoArgumentSpec::Delete)));
        v.push(('D', CommandParsingSpec::NoArgument(NoArgumentSpec::DeleteFirstLine)));
        v.push(('h', CommandParsingSpec::NoArgument(NoArgumentSpec::HoldReplace)));
        v.push(('H', CommandParsingSpec::NoArgument(NoArgumentSpec::HoldAppend)));
        v.push(('g', CommandParsingSpec::NoArgument(NoArgumentSpec::GetReplace)));
        v.push(('G', CommandParsingSpec::NoArgument(NoArgumentSpec::GetAppend)));
        v.push(('n', CommandParsingSpec::NoArgument(NoArgumentSpec::Next)));
        v.push(('N', CommandParsingSpec::NoArgument(NoArgumentSpec::NextAppend)));
        v.push(('p', CommandParsingSpec::NoArgument(NoArgumentSpec::Print)));
        v.push(('P', CommandParsingSpec::NoArgument(NoArgumentSpec::PrintFirstLine)));
        v.push(('s', CommandParsingSpec::SubstitutionLike(SubstitutionLikeSpec::Substitute)));
        v.push(('t', CommandParsingSpec::SingleLineArgument(SingleLineSpec::BranchIfSub)));
        v.push(('T', CommandParsingSpec::SingleLineArgument(SingleLineSpec::BranchIfNotSub)));
        v.push(('w', CommandParsingSpec::SingleLineArgument(SingleLineSpec::WriteFile)));
        v.push(('W', CommandParsingSpec::SingleLineArgument(SingleLineSpec::WriteFileFirstLine)));
        v.push(('x', CommandParsingSpec::NoArgument(NoArgumentSpec::Exchange)));
        v.push(('y', CommandParsingSpec::SubstitutionLike(SubstitutionLikeSpec::Transliterate)));
        assert(v@ =~= default_command_table());
        Self::empty().with_commands(v)
    }

    /// This parser with its table replaced by `commands`.
    fn with_commands(self, commands: Vec<(char, CommandParsingSpec)>) -> (r: Self)
        ensures
            r.table() == commands@,
    {
        let mut s = self;
        s.commands = commands;
        s
    }

    /// How the letter `c` is parsed, if the parser knows it.
    pub fn lookup(&self, c: char) -> (r: Option<CommandParsingSpec>)
        ensures
            r == lookup_command(self.table(), c),
    {
        let mut i: usize = 0;
        assert(self.commands@.skip(0) =~= self.commands@);
        while i < self.commands.len()
            invariant
                i <= self.commands@.len(),
                lookup_command(self.commands@, c) == lookup_command(self.commands@.skip(i as int), c),
            decreases self.commands.len() - i,
        {
            let ghost rest = self.commands@.skip(i as int);
            assert(rest[0] == self.commands@[i as int]);
            if self.commands[i].0 == c {
                return Some(self.commands[i].1);
            }
            assert(rest.drop_first() =~= self.commands@.skip(i + 1));
            i = i + 1;
        }
        None
    }

    /// Teaches the parser the letter `command_letter`; fails, handing the
    /// entry back, if the letter is already taken.
    pub fn add_command(&mut self, command_letter: char, command: CommandParsingSpec) -> (r: Result<
        (),
        CommandParsingSpec,
    >)
        ensures
            match lookup_command(old(self).table(), command_letter) {
                Some(_) => r == Err::<(), CommandParsingSpec>(command) && final(self).table() == old(
                    self,
                ).table(),
                None => r is Ok && final(self).table() == old(self).table().push(
                    (command_letter, command),
                ),
            },
    {
        match self.lookup(command_letter) {
            Some(_) => Err(command),
            None => {
                self.commands.push((command_letter, command));
                Ok(())
            },
        }
    }

    /// Changes how the letter `command_letter` is parsed; fails, handing
    /// the entry back, if the parser does not know the letter yet.
    pub fn replace_command(&mut self, command_letter: char, command: CommandParsingSpec) -> (r:
        Result<(), CommandParsingSpec>)
        ensures
            match lookup_command(old(self).table(), command_letter) {
                None => r == Err::<(), CommandParsingSpec>(command) && final(self).table() == old(
                    self,
                ).table(),
                Some(_) => r is Ok && lookup_command(final(self).table(), command_letter) == Some(
                    command,
                ) && forall|c: char|
                    c != command_letter ==> lookup_command(final(self).table(), c) == lookup_command(
                        old(self).table(),
                        c,
                    ),
            },
    {
        let mut i: usize = 0;
        assert(self.commands@.skip(0) =~= self.commands@);
        while i < self.commands.len()
            invariant
                i <= self.commands@.len(),
                self.commands@ == old(self).commands@,
                forall|k: int| 0 <= k < i ==> self.commands@[k].0 != command_letter,
            decreases self.commands.len() - i,
        {
            if self.commands[i].0 == command_letter {
                let ghost old_table = self.commands@;
                self.commands.set(i, (command_letter, command));
                proof {
                    lemma_lookup_after_set(old_table, i as int, command_letter, command);
                }
                return Ok(());
            }
            i = i + 1;
        }
        proof {
            lemma_lookup_absent(self.commands@, command_letter);
        }
        Err(command)
    }
}

proof fn lemma_lookup_absent(table: Seq<(char, CommandParsingSpec)>, c: char)
    requires
        forall|k: int| 0 <= k < table.len() ==> table[k].0 != c,
    ensures
        lookup_command(table, c) is None,
    decreases table.len(),
{
    if table.len() > 0 {
        assert forall|k: int| 0 <= k < table.drop_first().len() implies table.drop_first()[k].0 != c by {
            assert(table.drop_first()[k] == table[k + 1]);
        }
        lemma_lookup_absent(table.drop_first(), c);
    }
}

proof fn lemma_lookup_after_set(table: Seq<(char, CommandParsingSpec)>, i: int, c: char, cps: CommandParsingSpec)
    requires
        0 <= i < table.len(),
        table[i].0 == c,
        forall|k: int| 0 <= k < i ==> table[k].0 != c,
    ensures
        lookup_command(table, c) is Some,
        lookup_command(table.update(i, (c, cps)), c) == Some(cps),
        forall|d: char| d != c ==> lookup_command(table.update(i, (c, cps)), d) == lookup_command(table, d),
    decreases table.len(),
{
    let t2 = table.update(i, (c, cps));
    if i > 0 {
        assert forall|k: int| 0 <= k < i - 1 implies table.drop_first()[k].0 != c by {
            assert(table.drop_first()[k] == table[k + 1]);
        }
        lemma_lookup_after_set(table.drop_first(), i - 1, c, cps);
        assert(t2.drop_first() =~= table.drop_first().update(i - 1, (c, cps)));
        assert(t2[0] == table[0]);
    } else {
        assert(t2.drop_first() =~= table.drop_first());
    }
    assert forall|d: char| d != c implies lookup_command(t2, d) == lookup_command(table, d) by {
        if i > 0 {
            assert(t2[0] == table[0]);
            if table[0].0 != d {
                assert(lookup_command(t2, d) == lookup_command(t2.drop_first(), d));
                assert(lookup_command(t2.drop_first(), d) == lookup_command(table.drop_first().update(i - 1, (c, cps)), d));
                assert(lookup_command(table, d) == lookup_command(table.drop_first(), d));
            }
        } else {
            assert(t2[0] == (c, cps));
            assert(lookup_command(t2, d) == lookup_command(t2.drop_first(), d));
            assert(lookup_command(table, d) == lookup_command(table.drop_first(), d));
        }
    }
}

} // verus!
