//! A parsed script and its abstract view.
mod process;

use vstd::prelude::*;

use crate::address_range::{Address, AddressRange};
use crate::parser::parsecommand::{Command, CommandView};

pub use process::{
    address_matches, address_range_active, append_next_line_spec, budget_for, initial_ranges,
    next_effect_spec, range_entered_or_stateless_entered_spec, replace_with_next_line_spec,
    run_spec, step_result_view, DocumentEval, DocumentView, EngineState, EvalError, EvalErrorView,
    LineEval, RangeState, SedEffect, SedEffectView, StepResult,
};



verus! {

/// A compiled script: a flat list of guarded statements and the statement
/// index of each label.
#[derive(Debug)]
pub struct SedProgram {
    pub commands: Vec<SedProgramBlock>,
    pub labels: Vec<(String, usize)>,
}

/// One statement: what to run, and on which lines.
#[derive(Debug)]
pub struct SedProgramBlock {
    pub command: BlockType,
    pub filter: AddressRange,
}

/// A statement is either a command, or a jump taken when its filter selects
/// the line (used to skip over the body of a `{ ... }` block).
#[derive(Debug)]
pub enum BlockType {
    SingleCommand(Command),
    BlockBranch(usize),
}

/// What a command can know about the current line.
pub struct SedLineInfo {
    pub index: usize,
}

/// Per-line flags that commands may read and change.
#[derive(Clone, Copy, Debug, PartialEq, Eq)]
pub struct SedLineState {
    /// A substitution succeeded since the last line was read or the last
    /// `t` branch was taken.
    pub substitution_successful: bool,
    /// The pattern space is printed when the script ends for this line.
    pub implicit_print_at_end: bool,
}

/// Abstract view of an [`Address`].
pub enum AddressView {
    LineNumber(usize),
    Last,
    Regex { pattern: Seq<char>, case_insensitive: bool },
    Step { first: usize, step: usize },
}

/// Abstract view of an [`AddressRange`].
pub enum AddressRangeView {
    All,
    Single { addr: AddressView, negated: bool },
    Range { start: AddressView, end: AddressView, negated: bool },
}

/// Abstract view of a [`BlockType`].
pub enum BlockTypeView {
    SingleCommand(CommandView),
    BlockBranch(usize),
}

/// Abstract view of a [`SedProgramBlock`].
pub struct BlockView {
    pub command: BlockTypeView,
    pub filter: AddressRangeView,
}

/// Abstract view of a [`SedProgram`].
pub struct ProgramView {
    pub commands: Seq<BlockView>,
    pub labels: Seq<(Seq<char>, usize)>,
}

impl View for Address {
    type V = AddressView;

    open spec fn view(&self) -> AddressView {
        match self {
            Address::LineNumber(l) => AddressView::LineNumber(*l),
            Address::Last => AddressView::Last,
            Address::Regex(re) => AddressView::Regex {
                pattern: re.source(),
                case_insensitive: re.is_case_insensitive(),
            },
            Address::Step { first, step } => AddressView::Step { first: *first, step: *step },
        }
    }
}

impl View for AddressRange {
    type V = AddressRangeView;

    open spec fn view(&self) -> AddressRangeView {
        match self {
            AddressRange::All => AddressRangeView::All,
            AddressRange::Single { addr, negated } => AddressRangeView::Single {
                addr: addr@,
                negated: *negated,
            },
            AddressRange::Range { start, end, negated } => AddressRangeView::Range {
                start: start@,
                end: end@,
                negated: *negated,
            },
        }
    }
}

impl View for BlockType {
    type V = BlockTypeView;

    open spec fn view(&self) -> BlockTypeView {
        match self {
            BlockType::SingleCommand(c) => BlockTypeView::SingleCommand(c.view()),
            BlockType::BlockBranch(t) => BlockTypeView::BlockBranch(*t),
        }
    }
}

impl View for SedProgramBlock {
    type V = BlockView;

    open spec fn view(&self) -> BlockView {
        BlockView { command: self.command@, filter: self.filter@ }
    }
}

/// The view of a list of blocks.
pub open spec fn blocks_view(blocks: Seq<SedProgramBlock>) -> Seq<BlockView> {
    blocks.map_values(|b: SedProgramBlock| b@)
}

/// The view of a label table.
pub open spec fn labels_view(labels: Seq<(String, usize)>) -> Seq<(Seq<char>, usize)> {
    labels.map_values(|l: (String, usize)| (l.0@, l.1))
}

impl View for SedProgram {
    type V = ProgramView;

    open spec fn view(&self) -> ProgramView {
        ProgramView { commands: blocks_view(self.commands@), labels: labels_view(self.labels@) }
    }
}

impl AddressView {
    /// The address can be evaluated without dividing by zero.
    pub open spec fn well_formed(self) -> bool {
        match self {
            AddressView::Step { step, .. } => step != 0,
            _ => true,
        }
    }
}

impl AddressRangeView {
    /// Every address of the range can be evaluated.
    pub open spec fn well_formed(self) -> bool {
        match self {
            AddressRangeView::All => true,
            AddressRangeView::Single { addr, .. } => addr.well_formed(),
            AddressRangeView::Range { start, end, .. } => start.well_formed() && end.well_formed(),
        }
    }
}

impl ProgramView {
    /// No address of the program steps by zero (evaluating such an address
    /// would divide by zero).
    pub open spec fn well_formed(self) -> bool {
        forall|i: int| 0 <= i < self.commands.len() ==> (#[trigger] self.commands[i]).filter.well_formed()
    }

    /// The statement index of the first label named `name`.
    pub open spec fn label_target(self, name: Seq<char>) -> Option<usize> {
        label_lookup(self.labels, name)
    }

    /// No label is defined twice.
    pub open spec fn labels_unique(self) -> bool {
        forall|i: int, j: int|
            0 <= i < j < self.labels.len() ==> #[trigger] self.labels[i].0 != #[trigger] self.labels[j].0
    }
}

/// The target of the first entry of `labels` named `name`.
pub open spec fn label_lookup(labels: Seq<(Seq<char>, usize)>, name: Seq<char>) -> Option<usize>
    decreases labels.len(),
{
    if labels.len() == 0 {
        None
    } else if labels[0].0 == name {
        Some(labels[0].1)
    } else {
        label_lookup(labels.drop_first(), name)
    }
}

impl Address {
    /// Whether evaluating the address can divide by zero.
    pub fn is_well_formed(&self) -> (r: bool)
        ensures
            r == self@.well_formed(),
            r == self.well_formed(),
    {
        match self {
            Address::Step { step, .. } => *step != 0,
            _ => true,
        }
    }
}

impl AddressRange {
    /// Whether every address of the range can be evaluated.
    pub fn is_well_formed(&self) -> (r: bool)
        ensures
            r == self@.well_formed(),
            r == self.well_formed(),
    {
        match self {
            AddressRange::All => true,
            AddressRange::Single { addr, .. } => addr.is_well_formed(),
            AddressRange::Range { start, end, .. } => start.is_well_formed() && end.is_well_formed(),
        }
    }
}

impl SedProgram {
    /// Whether every address of the program can be evaluated (no `~0` step).
    pub fn is_well_formed(&self) -> (r: bool)
        ensures
            r == self@.well_formed(),
    {
        let mut i: usize = 0;
        while i < self.commands.len()
            invariant
                i <= self.commands@.len(),
                forall|k: int| 0 <= k < i ==> (#[trigger] self@.commands[k]).filter.well_formed(),
            decreases self.commands.len() - i,
        {
            if !self.commands[i].filter.is_well_formed() {
                assert(self@.commands[i as int] == self.commands@[i as int]@);
                return false;
            }
            assert(self@.commands[i as int] == self.commands@[i as int]@);
            i = i + 1;
        }
        true
    }

    /// Number of statements.
    pub fn len(&self) -> (r: usize)
        ensures
            r == self@.commands.len(),
    {
        self.commands.len()
    }

    /// The statement index of the label `name`, if it is defined.
    pub fn label_target(&self, name: &str) -> (r: Option<usize>)
        ensures
            r == self@.label_target(name@),
    {
        let mut i: usize = 0;
        assert(self@.labels.skip(0) =~= self@.labels);
        while i < self.labels.len()
            invariant
                i <= self.labels@.len(),
                label_lookup(self@.labels, name@) == label_lookup(self@.labels.skip(i as int), name@),
            decreases self.labels.len() - i,
        {
            let ghost rest = self@.labels.skip(i as int);
            assert(rest[0] == (self.labels@[i as int].0@, self.labels@[i as int].1));
            if crate::text::strings_equal(self.labels[i].0.as_str(), name) {
                return Some(self.labels[i].1);
            }
            assert(rest.drop_first() =~= self@.labels.skip(i + 1));
            i = i + 1;
        }
        None
    }
}

impl std::str::FromStr for SedProgram {
    type Err = crate::parser::ParserError;

    /// Parses `s` with the built-in commands (as `Parser::new().parse(s)`).
    fn from_str(s: &str) -> (r: Result<Self, Self::Err>)
        ensures
            match crate::parser::parse_script_spec(crate::parser::default_command_table(), s@) {
                Ok(p) => r matches Ok(prog) && prog@ == p,
                Err(e) => r matches Err(e2) && e2@ == e,
            },
    {
        crate::parser::Parser::new().parse(s)
    }
}

} // verus!
