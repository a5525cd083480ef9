//! The evaluation engine: runs a program over a document, line by line,
//! and hands out the effects (prints, requests for more input, ...) the
//! script asks for.
use vstd::prelude::*;

use crate::address_range::{saturating_sub, Address, AddressRange};
use crate::compiled_regex::regex_is_match;
use crate::parser::parsecommand::{command_outcome, CommandResult, CommandResultView, CommandView, SedCommand};
use crate::program::{
    AddressRangeView, AddressView, BlockType, BlockTypeView, ProgramView, SedLineInfo,
    SedLineState, SedProgram,
};
use crate::text::{decimal, push_string, usize_to_decimal};

verus! {

/// The `std::io` error type, carried opaquely.
#[verifier::external_type_specification]
#[verifier::external_body]
pub struct ExIoError(std::io::Error);

/// Whether a line range has been entered yet.
#[derive(Debug, PartialEq, Eq, Clone, Copy)]
pub enum RangeState {
    NotEntered,
    Entered,
    Exited,
}

/// Something the caller has to act on.
#[derive(Debug)]
pub enum SedEffect {
    Error(EvalError),
    Quit,
    Print(String),
    WriteFile(String, String),
    RequestReadFileAppend(String),
    RequestNextLineAppended,
    NextLineKeepingStateState,
}

/// Why evaluation stopped.
#[derive(Debug)]
pub enum EvalError {
    LabelNotFound(String),
    InfiniteLoop,
    IoError(std::io::Error),
    Utf8Error,
}

/// Abstract view of an [`EvalError`].
pub enum EvalErrorView {
    LabelNotFound(Seq<char>),
    InfiniteLoop,
    IoError,
    Utf8Error,
}

/// Abstract view of a [`SedEffect`].
pub enum SedEffectView {
    Error(EvalErrorView),
    Quit,
    Print(Seq<char>),
    WriteFile(Seq<char>, Seq<char>),
    RequestReadFileAppend(Seq<char>),
    RequestNextLineAppended,
    NextLineKeepingStateState,
}

impl View for EvalError {
    type V = EvalErrorView;

    open spec fn view(&self) -> EvalErrorView {
        match self {
            EvalError::LabelNotFound(l) => EvalErrorView::LabelNotFound(l@),
            EvalError::InfiniteLoop => EvalErrorView::InfiniteLoop,
            EvalError::IoError(_) => EvalErrorView::IoError,
            EvalError::Utf8Error => EvalErrorView::Utf8Error,
        }
    }
}

impl View for SedEffect {
    type V = SedEffectView;

    open spec fn view(&self) -> SedEffectView {
        match self {
            SedEffect::Error(e) => SedEffectView::Error(e@),
            SedEffect::Quit => SedEffectView::Quit,
            SedEffect::Print(s) => SedEffectView::Print(s@),
            SedEffect::WriteFile(p, s) => SedEffectView::WriteFile(p@, s@),
            SedEffect::RequestReadFileAppend(p) => SedEffectView::RequestReadFileAppend(p@),
            SedEffect::RequestNextLineAppended => SedEffectView::RequestNextLineAppended,
            SedEffect::NextLineKeepingStateState => SedEffectView::NextLineKeepingStateState,
        }
    }
}

/// What one call of the engine yields: an effect, the end of the script
/// for this line (`Ok(None)`), or an error.
pub type StepResult = Result<Option<SedEffectView>, EvalErrorView>;

/// The view of an engine answer.
pub open spec fn step_result_view(r: Result<Option<SedEffect>, EvalError>) -> StepResult {
    match r {
        Ok(Some(e)) => Ok(Some(e@)),
        Ok(None) => Ok(None),
        Err(e) => Err(e@),
    }
}

/// The mutable state of the engine while a line is processed.
#[verifier::ext_equal]
pub struct EngineState {
    /// Index of the next statement.
    pub pc: int,
    pub pattern: Seq<char>,
    pub hold: Seq<char>,
    /// Range state of each statement.
    pub ranges: Seq<RangeState>,
    pub flags: SedLineState,
    /// An effect to hand out before anything else.
    pub holdover: Option<SedEffectView>,
}

/// Whether the address selects the line with number `line`, pattern space
/// `pattern`, which is the last line of input exactly when `is_last`.
pub open spec fn address_matches(a: AddressView, line: nat, pattern: Seq<char>, is_last: bool) -> bool {
    match a {
        AddressView::LineNumber(l) => l == line,
        AddressView::Last => is_last,
        AddressView::Regex { pattern: re, case_insensitive } => regex_is_match(
            re,
            case_insensitive,
            pattern,
        ),
        AddressView::Step { first, step } => saturating_sub(line, first as nat) % (step as nat) == 0,
    }
}

/// A range counts as entered when its state says so, or when it has not
/// been entered and starts at a line number not after the current line
/// (earlier lines may have skipped the statement).
pub open spec fn range_entered_or_stateless_entered_spec(start: AddressView, line: nat, st: RangeState) -> bool {
    st == RangeState::Entered || (st == RangeState::NotEntered && match start {
        AddressView::LineNumber(l) => line >= l,
        _ => false,
    })
}

/// Whether a statement guarded by `f` runs on the current line, and the
/// new range state of the statement.
pub open spec fn address_range_active(
    f: AddressRangeView,
    line: nat,
    pattern: Seq<char>,
    is_last: bool,
    st: RangeState,
) -> (bool, RangeState) {
    match f {
        AddressRangeView::All => (true, st),
        AddressRangeView::Single { addr, negated } => {
            let r = address_matches(addr, line, pattern, is_last);
            (if negated {
                !r
            } else {
                r
            }, st)
        },
        AddressRangeView::Range { start, end, negated } => {
            let (in_range, st2) = if range_entered_or_stateless_entered_spec(start, line, st) {
                (true, if address_matches(end, line, pattern, is_last) {
                    RangeState::Exited
                } else {
                    st
                })
            } else if address_matches(start, line, pattern, is_last) {
                (true, if address_matches(end, line, pattern, is_last) {
                    RangeState::Exited
                } else {
                    RangeState::Entered
                })
            } else {
                (false, st)
            };
            (if negated {
                !in_range
            } else {
                in_range
            }, st2)
        },
    }
}

/// Runs statements from `s.pc` with `fuel` instructions left (the last
/// unit of fuel is never spent: reaching it is an infinite-loop error),
/// until the script ends for the line or yields an effect.
pub open spec fn run_spec(p: ProgramView, line: nat, is_last: bool, s: EngineState, fuel: nat) -> (EngineState, StepResult)
    decreases fuel,
{
    if s.pc >= p.commands.len() || s.pc < 0 {
        if s.flags.implicit_print_at_end {
            (
                EngineState {
                    flags: SedLineState { implicit_print_at_end: false, ..s.flags },
                    pattern: seq![],
                    ..s
                },
                Ok(Some(SedEffectView::Print(s.pattern))),
            )
        } else {
            (s, Ok(None))
        }
    } else if fuel <= 1 {
        (s, Err(EvalErrorView::InfiniteLoop))
    } else {
        let pc = s.pc;
        let blk = p.commands[pc];
        let (active, rs) = address_range_active(blk.filter, line, s.pattern, is_last, s.ranges[pc]);
        let s1 = EngineState { pc: pc + 1, ranges: s.ranges.update(pc, rs), ..s };
        if !active {
            run_spec(p, line, is_last, s1, (fuel - 1) as nat)
        } else {
            match blk.command {
                BlockTypeView::BlockBranch(t) => run_spec(
                    p,
                    line,
                    is_last,
                    EngineState { pc: t as int, ..s1 },
                    (fuel - 1) as nat,
                ),
                BlockTypeView::SingleCommand(c) => {
                    let o = command_outcome(c, s1.flags, s1.hold, s1.pattern);
                    let s2 = EngineState { flags: o.state, hold: o.hold, pattern: o.pattern, ..s1 };
                    match o.result {
                        CommandResultView::BranchToLabel(l) => match p.label_target(l) {
                            Some(t) => run_spec(
                                p,
                                line,
                                is_last,
                                EngineState { pc: t as int, ..s2 },
                                (fuel - 1) as nat,
                            ),
                            None => (
                                s2,
                                Ok(Some(SedEffectView::Error(EvalErrorView::LabelNotFound(l)))),
                            ),
                        },
                        CommandResultView::BranchToStart => run_spec(
                            p,
                            line,
                            is_last,
                            EngineState { pc: 0, ..s2 },
                            (fuel - 1) as nat,
                        ),
                        CommandResultView::BranchToEnd => run_spec(
                            p,
                            line,
                            is_last,
                            EngineState { pc: p.commands.len() as int, ..s2 },
                            (fuel - 1) as nat,
                        ),
                        CommandResultView::QuitScript => if s2.flags.implicit_print_at_end {
                            (
                                EngineState {
                                    flags: SedLineState { implicit_print_at_end: false, ..s2.flags },
                                    pattern: seq![],
                                    holdover: Some(SedEffectView::Quit),
                                    ..s2
                                },
                                Ok(Some(SedEffectView::Print(s2.pattern))),
                            )
                        } else {
                            (s2, Ok(Some(SedEffectView::Quit)))
                        },
                        CommandResultView::Print(x) => (s2, Ok(Some(SedEffectView::Print(x)))),
                        CommandResultView::PrintLineNumber => (
                            s2,
                            Ok(Some(SedEffectView::Print(decimal(line)))),
                        ),
                        CommandResultView::ReadNextLine => (
                            s2,
                            Ok(Some(SedEffectView::NextLineKeepingStateState)),
                        ),
                        CommandResultView::ReadNextLineAppend => (
                            s2,
                            Ok(Some(SedEffectView::RequestNextLineAppended)),
                        ),
                        CommandResultView::ReadFileAppend(path) => (
                            s2,
                            Ok(Some(SedEffectView::RequestReadFileAppend(path))),
                        ),
                        CommandResultView::WriteFile(path, x) => (
                            s2,
                            Ok(Some(SedEffectView::WriteFile(path, x))),
                        ),
                        CommandResultView::Nothing => run_spec(p, line, is_last, s2, (fuel - 1) as nat),
                    }
                },
            }
        }
    }
}

/// The instruction budget for a limit of `n` (`0` meaning no limit, which
/// is approximated by the largest budget).
pub open spec fn budget_for(n: usize) -> nat {
    if n == 0 || n == usize::MAX {
        usize::MAX as nat
    } else {
        (n + 1) as nat
    }
}

/// One call of the engine with an instruction limit `n`: a pending effect
/// if there is one, else the script runs on.
pub open spec fn next_effect_spec(p: ProgramView, line: nat, is_last: bool, s: EngineState, n: usize) -> (EngineState, StepResult) {
    match s.holdover {
        Some(h) => (EngineState { holdover: None, ..s }, Ok(Some(h))),
        None => run_spec(p, line, is_last, s, budget_for(n)),
    }
}

/// The range states a document starts with: ranges that start at line 0
/// begin as entered.
pub open spec fn initial_ranges(p: ProgramView) -> Seq<RangeState> {
    Seq::new(
        p.commands.len(),
        |i: int|
            match p.commands[i].filter {
                AddressRangeView::Range { start: AddressView::LineNumber(0), .. } => RangeState::Entered,
                _ => RangeState::NotEntered,
            },
    )
}

/// Abstract view of a [`DocumentEval`].
#[verifier::ext_equal]
pub struct DocumentView {
    pub program: ProgramView,
    pub hold: Seq<char>,
    pub ranges: Seq<RangeState>,
    /// Number of lines started so far.
    pub line_index: nat,
    pub implicit_print_at_end: bool,
}

/// The state of a program running over a document: what carries from one
/// line to the next.
pub struct DocumentEval<'d> {
    prog: &'d SedProgram,
    hold: String,
    ranges_entered: Vec<RangeState>,
    line_index: usize,
    implicit_print_at_end: bool,
}

/// A line being processed.
pub struct LineEval<'d> {
    doc: DocumentEval<'d>,
    pc: usize,
    holdover_effect: Option<SedEffect>,
    pattern: String,
    is_last: bool,
    line_state: SedLineState,
}

impl<'d> DocumentEval<'d> {
    pub closed spec fn view(&self) -> DocumentView {
        DocumentView {
            program: self.prog@,
            hold: self.hold@,
            ranges: self.ranges_entered@,
            line_index: self.line_index as nat,
            implicit_print_at_end: self.implicit_print_at_end,
        }
    }

    /// The document can be run: one range state per statement, and every
    /// address of the program can be evaluated.
    pub closed spec fn well_formed(&self) -> bool {
        &&& self.ranges_entered@.len() == self.prog@.commands.len()
        &&& self.prog@.commands.len() == self.prog.commands@.len()
        &&& self.prog@.well_formed()
    }

    /// Starts the next line of input, `src`, which must not end with a
    /// newline; `is_last` tells whether it is the last line of input.
    pub fn line(self, src: String, is_last: bool) -> (r: LineEval<'d>)
        requires
            self.well_formed(),
            self.view().line_index < usize::MAX,
        ensures
            r.well_formed(),
            r.document() == (DocumentView { line_index: self.view().line_index + 1, ..self.view() }),
            r.is_last() == is_last,
            r.state() == (EngineState {
                pc: 0,
                pattern: src@,
                hold: self.view().hold,
                ranges: self.view().ranges,
                flags: SedLineState {
                    substitution_successful: false,
                    implicit_print_at_end: self.view().implicit_print_at_end,
                },
                holdover: None,
            }),
    {
        let mut doc = self;
        doc.line_index = doc.line_index + 1;
        let implicit = doc.implicit_print_at_end;
        LineEval {
            doc,
            pc: 0,
            holdover_effect: None,
            pattern: src,
            is_last,
            line_state: SedLineState { substitution_successful: false, implicit_print_at_end: implicit },
        }
    }

    /// The hold space.
    pub fn hold(&self) -> (r: &str)
        ensures
            r@ == self.view().hold,
    {
        self.hold.as_str()
    }

    /// Number of lines started so far.
    pub fn line_index(&self) -> (r: usize)
        ensures
            r == self.view().line_index,
    {
        self.line_index
    }
}

impl<'d> LineEval<'d> {
    /// The document this line belongs to (its hold space and range states
    /// as they are now).
    pub closed spec fn document(&self) -> DocumentView {
        DocumentView {
            program: self.doc.prog@,
            hold: self.doc.hold@,
            ranges: self.doc.ranges_entered@,
            line_index: self.doc.line_index as nat,
            implicit_print_at_end: self.doc.implicit_print_at_end,
        }
    }

    /// Whether this is the last line of input.
    pub closed spec fn is_last(&self) -> bool {
        self.is_last
    }

    /// The engine state of the line.
    pub closed spec fn state(&self) -> EngineState {
        EngineState {
            pc: self.pc as int,
            pattern: self.pattern@,
            hold: self.doc.hold@,
            ranges: self.doc.ranges_entered@,
            flags: self.line_state,
            holdover: match self.holdover_effect {
                Some(e) => Some(e@),
                None => None,
            },
        }
    }

    /// The line can be run.
    pub closed spec fn well_formed(&self) -> bool {
        self.doc.well_formed()
    }

    /// The pattern space.
    pub fn pattern(&self) -> (r: &str)
        ensures
            r@ == self.state().pattern,
    {
        self.pattern.as_str()
    }

    /// Ends the line and gives the document back.
    pub fn into_document(self) -> (r: DocumentEval<'d>)
        requires
            self.well_formed(),
        ensures
            r.well_formed(),
            r.view() == (DocumentView { hold: self.state().hold, ranges: self.state().ranges, ..self.document() }),
    {
        self.doc
    }

    /// Implements `n` after the script asked for it: if printing at the end
    /// is on, the pattern space is queued for printing (unless an effect is
    /// already queued); then the pattern space becomes the next line, or,
    /// when there is no more input, the script ends for this line without
    /// printing.
    pub fn replace_with_next_line(&mut self, line: Option<&str>)
        requires
            old(self).well_formed(),
        ensures
            final(self).well_formed(),
            final(self).document() == old(self).document(),
            final(self).is_last() == old(self).is_last(),
            final(self).state() == replace_with_next_line_spec(
                old(self).document().program,
                old(self).state(),
                match line {
                    Some(l) => Some(l@),
                    None => None,
                },
            ),
    {
        if self.line_state.implicit_print_at_end {
            let mut taken = String::new();
            std::mem::swap(&mut taken, &mut self.pattern);
            if self.holdover_effect.is_none() {
                self.holdover_effect = Some(SedEffect::Print(taken));
            }
        }
        self.pattern.clear();
        match line {
            Some(l) => {
                push_string(&mut self.pattern, l);
            },
            None => {
                self.pc = self.doc.prog.commands.len();
                self.line_state.implicit_print_at_end = false;
            },
        }
    }

    /// Implements `N` after the script asked for it: appends a newline and
    /// the next line to the pattern space, or, when there is no more input,
    /// ends the script for this line.
    pub fn append_next_line(&mut self, line: Option<&str>)
        requires
            old(self).well_formed(),
        ensures
            final(self).well_formed(),
            final(self).document() == old(self).document(),
            final(self).is_last() == old(self).is_last(),
            final(self).state() == append_next_line_spec(
                old(self).document().program,
                old(self).state(),
                match line {
                    Some(l) => Some(l@),
                    None => None,
                },
            ),
    {
        match line {
            Some(l) => {
                let ghost before = self.pattern@;
                self.pattern.push('\n');
                push_string(&mut self.pattern, l);
                assert(self.pattern@ =~= before + seq!['\n'] + l@);
            },
            None => {
                self.pc = self.doc.prog.commands.len();
            },
        }
    }
}

impl<'d> LineEval<'d> {
    /// Whether the statement at `pc` runs on this line; updates its range
    /// state.
    fn current_is_active(&mut self, pc: usize) -> (r: bool)
        requires
            old(self).well_formed(),
            pc < old(self).document().program.commands.len(),
        ensures
            final(self).well_formed(),
            final(self).is_last() == old(self).is_last(),
            ({
                let (active, rs) = address_range_active(
                    old(self).document().program.commands[pc as int].filter,
                    old(self).document().line_index,
                    old(self).state().pattern,
                    old(self).is_last(),
                    old(self).state().ranges[pc as int],
                );
                &&& r == active
                &&& final(self).state() == (EngineState {
                    ranges: old(self).state().ranges.update(pc as int, rs),
                    ..old(self).state()
                })
                &&& final(self).document() == (DocumentView {
                    ranges: old(self).state().ranges.update(pc as int, rs),
                    ..old(self).document()
                })
            }),
    {
        let prog = self.doc.prog;
        let blk = &prog.commands[pc];
        assert(blk@ == prog@.commands[pc as int]);
        assert(prog@.commands[pc as int].filter.well_formed());
        match &blk.filter {
            AddressRange::All => true,
            AddressRange::Single { addr, negated } => {
                let r = addr.matches(self.doc.line_index, self.pattern.as_str(), self.is_last);
                if *negated {
                    !r
                } else {
                    r
                }
            },
            AddressRange::Range { start, end, negated } => {
                let st = self.doc.ranges_entered[pc];
                let in_range = if range_entered_or_stateless_entered(start, self.doc.line_index, st) {
                    if end.matches(self.doc.line_index, self.pattern.as_str(), self.is_last) {
                        self.doc.ranges_entered.set(pc, RangeState::Exited);
                    }
                    true
                } else {
                    if start.matches(self.doc.line_index, self.pattern.as_str(), self.is_last) {
                        if end.matches(self.doc.line_index, self.pattern.as_str(), self.is_last) {
                            self.doc.ranges_entered.set(pc, RangeState::Exited);
                        } else {
                            self.doc.ranges_entered.set(pc, RangeState::Entered);
                        }
                        true
                    } else {
                        false
                    }
                };
                proof {
                    let ghost rs = address_range_active(
                        prog@.commands[pc as int].filter,
                        old(self).document().line_index,
                        old(self).state().pattern,
                        old(self).is_last(),
                        old(self).state().ranges[pc as int],
                    ).1;
                    assert(self.doc.ranges_entered@ =~= old(self).state().ranges.update(pc as int, rs));
                }
                if *negated {
                    !in_range
                } else {
                    in_range
                }
            },
        }
    }

    /// Runs the script until it yields an effect or ends for this line,
    /// executing at most `num_allowed_instructions` statements (0: no
    /// limit, which is approximated by `usize::MAX`); `Err(InfiniteLoop)`
    /// when the limit is reached. `Ok(None)` once the script has ended for
    /// the line and everything is printed.
    pub fn next_effect_limited(&mut self, num_allowed_instructions: usize) -> (r: Result<
        Option<SedEffect>,
        EvalError,
    >)
        requires
            old(self).well_formed(),
        ensures
            final(self).well_formed(),
            final(self).is_last() == old(self).is_last(),
            final(self).document() == (DocumentView {
                hold: final(self).state().hold,
                ranges: final(self).state().ranges,
                ..old(self).document()
            }),
            (final(self).state(), step_result_view(r)) == next_effect_spec(
                old(self).document().program,
                old(self).document().line_index,
                old(self).is_last(),
                old(self).state(),
                num_allowed_instructions,
            ),
    {
        let mut n: usize = if num_allowed_instructions == 0 {
            usize::MAX
        } else {
            num_allowed_instructions.saturating_add(1)
        };
        assert(n as nat == budget_for(num_allowed_instructions));
        if self.holdover_effect.is_some() {
            let h = self.holdover_effect.take();
            return Ok(h);
        }
        let ghost p = self.doc.prog@;
        let ghost line = self.doc.line_index as nat;
        let ghost last = self.is_last;
        let ghost target = run_spec(p, line, last, self.state(), n as nat);
        loop
            invariant
                self.well_formed(),
                self.is_last() == last,
                p == old(self).document().program,
                line == old(self).document().line_index,
                last == old(self).is_last(),
                self.document() == (DocumentView {
                    hold: self.state().hold,
                    ranges: self.state().ranges,
                    ..old(self).document()
                }),
                self.state().holdover is None,
                n >= 1,
                run_spec(p, line, last, self.state(), n as nat) == target,
                target == next_effect_spec(p, line, last, old(self).state(), num_allowed_instructions),
            decreases n,
        {
            let prog = self.doc.prog;
            if self.pc >= prog.commands.len() {
                if self.line_state.implicit_print_at_end {
                    self.line_state.implicit_print_at_end = false;
                    let mut pat = String::new();
                    std::mem::swap(&mut pat, &mut self.pattern);
                    return Ok(Some(SedEffect::Print(pat)));
                } else {
                    return Ok(None);
                }
            }
            if n == 1 {
                return Err(EvalError::InfiniteLoop);
            }
            n = n - 1;
            let prev_pc = self.pc;
            self.pc = self.pc + 1;
            let active = self.current_is_active(prev_pc);
            if active {
                let blk = &prog.commands[prev_pc];
                assert(blk@ == p.commands[prev_pc as int]);
                match &blk.command {
                    BlockType::BlockBranch(new_pc) => {
                        self.pc = *new_pc;
                    },
                    BlockType::SingleCommand(c) => {
                        let info = SedLineInfo { index: self.doc.line_index };
                        let res = c.execute(
                            &mut self.line_state,
                            &info,
                            &mut self.doc.hold,
                            &mut self.pattern,
                        );
                        match res {
                            CommandResult::BranchToLabel(l) => match prog.label_target(l.as_str()) {
                                Some(t) => {
                                    self.pc = t;
                                },
                                None => {
                                    return Ok(Some(SedEffect::Error(EvalError::LabelNotFound(l))));
                                },
                            },
                            CommandResult::BranchToStart => {
                                self.pc = 0;
                            },
                            CommandResult::BranchToEnd => {
                                self.pc = prog.commands.len();
                            },
                            CommandResult::QuitScript => {
                                if self.line_state.implicit_print_at_end {
                                    self.line_state.implicit_print_at_end = false;
                                    self.holdover_effect = Some(SedEffect::Quit);
                                    let mut pat = String::new();
                                    std::mem::swap(&mut pat, &mut self.pattern);
                                    return Ok(Some(SedEffect::Print(pat)));
                                } else {
                                    return Ok(Some(SedEffect::Quit));
                                }
                            },
                            CommandResult::Print(s) => {
                                return Ok(Some(SedEffect::Print(s)));
                            },
                            CommandResult::PrintLineNumber => {
                                return Ok(Some(SedEffect::Print(usize_to_decimal(self.doc.line_index))));
                            },
                            CommandResult::ReadNextLine => {
                                return Ok(Some(SedEffect::NextLineKeepingStateState));
                            },
                            CommandResult::ReadNextLineAppend => {
                                return Ok(Some(SedEffect::RequestNextLineAppended));
                            },
                            CommandResult::ReadFileAppend(path) => {
                                return Ok(Some(SedEffect::RequestReadFileAppend(path)));
                            },
                            CommandResult::WriteFile(path, s) => {
                                return Ok(Some(SedEffect::WriteFile(path, s)));
                            },
                            CommandResult::Nothing => {},
                        }
                    },
                }
            }
        }
    }

    /// The next effect (see [`Self::next_effect_limited`] with no limit);
    /// an error comes as [`SedEffect::Error`]; `None` once the script has
    /// ended for this line and everything is printed.
    pub fn next_effect(&mut self) -> (r: Option<SedEffect>)
        requires
            old(self).well_formed(),
        ensures
            final(self).well_formed(),
            final(self).is_last() == old(self).is_last(),
            final(self).document() == (DocumentView {
                hold: final(self).state().hold,
                ranges: final(self).state().ranges,
                ..old(self).document()
            }),
            ({
                let (s, res) = next_effect_spec(
                    old(self).document().program,
                    old(self).document().line_index,
                    old(self).is_last(),
                    old(self).state(),
                    0,
                );
                &&& final(self).state() == s
                &&& effect_of(res) == match r {
                    Some(e) => Some(e@),
                    None => None,
                }
            }),
    {
        match self.next_effect_limited(0) {
            Ok(Some(e)) => Some(e),
            Ok(None) => None,
            Err(e) => Some(SedEffect::Error(e)),
        }
    }
}

/// An engine answer as an effect: errors become [`SedEffectView::Error`].
pub open spec fn effect_of(r: StepResult) -> Option<SedEffectView> {
    match r {
        Ok(e) => e,
        Err(e) => Some(SedEffectView::Error(e)),
    }
}

/// Whether a range state counts as entered (see
/// [`range_entered_or_stateless_entered_spec`]).
fn range_entered_or_stateless_entered(start: &Address, line_index: usize, current_recorded_state: RangeState) -> (r: bool)
    ensures
        r == range_entered_or_stateless_entered_spec(start@, line_index as nat, current_recorded_state),
{
    match current_recorded_state {
        RangeState::Entered => true,
        RangeState::NotEntered => match start {
            Address::LineNumber(l) => line_index >= *l,
            _ => false,
        },
        RangeState::Exited => false,
    }
}

/// What running `p` over a document made of the single line `src` (see
/// [`SedProgram::eval`]) prints after `out`, with at most `k` more effects,
/// and how the run ends.
pub open spec fn eval_from(p: ProgramView, s: EngineState, out: Seq<char>, k: nat) -> (Seq<char>, Result<(), EvalErrorView>)
    decreases k,
{
    if k == 0 {
        (out, Err(EvalErrorView::InfiniteLoop))
    } else {
        let (s2, r) = next_effect_spec(p, 1, true, s, 0);
        match effect_of(r) {
            None => (out, Ok(())),
            Some(SedEffectView::Error(e)) => (out, Err(e)),
            Some(SedEffectView::Quit) => (out, Ok(())),
            Some(SedEffectView::Print(x)) => eval_from(p, s2, out + x, (k - 1) as nat),
            Some(_) => eval_from(p, s2, out, (k - 1) as nat),
        }
    }
}

/// What [`SedProgram::eval`] prints on `src` (also when it then fails),
/// and how it ends.
pub open spec fn eval_spec(p: ProgramView, src: Seq<char>) -> (Seq<char>, Result<(), EvalErrorView>) {
    eval_from(
        p,
        EngineState {
            pc: 0,
            pattern: src,
            hold: seq![],
            ranges: initial_ranges(p),
            flags: SedLineState { substitution_successful: false, implicit_print_at_end: true },
            holdover: None,
        },
        seq![],
        usize::MAX as nat,
    )
}

impl SedProgram {
    /// Starts running the program over a document; with
    /// `implicit_print_at_end`, each line's pattern space is printed when
    /// the script ends for it.
    pub fn document(&self, implicit_print_at_end: bool) -> (r: DocumentEval<'_>)
        requires
            self@.well_formed(),
        ensures
            r.well_formed(),
            r.view() == (DocumentView {
                program: self@,
                hold: seq![],
                ranges: initial_ranges(self@),
                line_index: 0,
                implicit_print_at_end,
            }),
    {
        let mut ranges: Vec<RangeState> = Vec::new();
        let mut i: usize = 0;
        while i < self.commands.len()
            invariant
                i <= self.commands@.len(),
                ranges@ == initial_ranges(self@).take(i as int),
            decreases self.commands.len() - i,
        {
            assert(self@.commands[i as int] == self.commands@[i as int]@);
            let st = match &self.commands[i].filter {
                AddressRange::Range { start: Address::LineNumber(0), .. } => RangeState::Entered,
                _ => RangeState::NotEntered,
            };
            ranges.push(st);
            i = i + 1;
            assert(ranges@ =~= initial_ranges(self@).take(i as int));
        }
        assert(initial_ranges(self@).take(i as int) =~= initial_ranges(self@));
        let r = DocumentEval {
            prog: self,
            hold: String::new(),
            ranges_entered: ranges,
            line_index: 0,
            implicit_print_at_end,
        };
        assert(r.view().hold =~= seq![]);
        r
    }

    /// Runs the program over a single line of input, `src`, appending what
    /// it prints to `out`; what was printed before an error stays in `out`.
    /// Requests for more input find none; file reads and writes are
    /// ignored. Stops with `Err(InfiniteLoop)` after `usize::MAX` effects.
    pub fn eval(&self, src: String, out: &mut String) -> (r: Result<(), EvalError>)
        requires
            self@.well_formed(),
        ensures
            final(out)@ == old(out)@ + eval_spec(self@, src@).0,
            match r {
                Ok(_) => eval_spec(self@, src@).1 is Ok,
                Err(e) => eval_spec(self@, src@).1 == Err::<(), EvalErrorView>(e@),
            },
    {
        let doc = self.document(true);
        let mut line = doc.line(src, true);
        let mut printed = String::new();
        let mut k: usize = usize::MAX;
        let ghost p = self@;
        assert(printed@ =~= seq![]);
        loop
            invariant
                line.well_formed(),
                p == self@,
                line.document().program == p,
                line.document().line_index == 1,
                line.is_last(),
                line.document().hold == line.state().hold,
                line.document().ranges == line.state().ranges,
                eval_from(p, line.state(), printed@, k as nat) == eval_spec(p, src@),
                *out == *old(out),
            decreases k,
        {
            if k == 0 {
                push_string(out, printed.as_str());
                return Err(EvalError::InfiniteLoop);
            }
            k = k - 1;
            match line.next_effect() {
                None => {
                    push_string(out, printed.as_str());
                    return Ok(());
                },
                Some(SedEffect::Error(e)) => {
                    push_string(out, printed.as_str());
                    return Err(e);
                },
                Some(SedEffect::Quit) => {
                    push_string(out, printed.as_str());
                    return Ok(());
                },
                Some(SedEffect::Print(s)) => {
                    push_string(&mut printed, s.as_str());
                },
                Some(_) => {},
            }
        }
    }
}

/// The state after `replace_with_next_line(line)`.
pub open spec fn replace_with_next_line_spec(p: ProgramView, s: EngineState, line: Option<Seq<char>>) -> EngineState {
    let holdover = if s.flags.implicit_print_at_end && s.holdover is None {
        Some(SedEffectView::Print(s.pattern))
    } else {
        s.holdover
    };
    match line {
        Some(l) => EngineState { pattern: l, holdover, ..s },
        None => EngineState {
            pattern: seq![],
            holdover,
            pc: p.commands.len() as int,
            flags: SedLineState { implicit_print_at_end: false, ..s.flags },
            ..s
        },
    }
}

/// The state after `append_next_line(line)`.
pub open spec fn append_next_line_spec(p: ProgramView, s: EngineState, line: Option<Seq<char>>) -> EngineState {
    match line {
        Some(l) => EngineState { pattern: s.pattern + seq!['\n'] + l, ..s },
        None => EngineState { pc: p.commands.len() as int, ..s },
    }
}

/// A larger instruction limit never changes an answer that a smaller one
/// gave: the limit only cuts off scripts that run too long.
pub proof fn lemma_more_fuel_same_answer(p: ProgramView, line: nat, is_last: bool, s: EngineState, f: nat, g: nat)
    requires
        f <= g,
        run_spec(p, line, is_last, s, f).1 != Err::<Option<SedEffectView>, EvalErrorView>(
            EvalErrorView::InfiniteLoop,
        ),
    ensures
        run_spec(p, line, is_last, s, g) == run_spec(p, line, is_last, s, f),
    decreases f,
{
    if s.pc >= p.commands.len() || s.pc < 0 {
    } else if f <= 1 {
    } else {
        let pc = s.pc;
        let blk = p.commands[pc];
        let (active, rs) = address_range_active(blk.filter, line, s.pattern, is_last, s.ranges[pc]);
        let s1 = EngineState { pc: pc + 1, ranges: s.ranges.update(pc, rs), ..s };
        if !active {
            lemma_more_fuel_same_answer(p, line, is_last, s1, (f - 1) as nat, (g - 1) as nat);
        } else {
            match blk.command {
                BlockTypeView::BlockBranch(t) => {
                    lemma_more_fuel_same_answer(
                        p,
                        line,
                        is_last,
                        EngineState { pc: t as int, ..s1 },
                        (f - 1) as nat,
                        (g - 1) as nat,
                    );
                },
                BlockTypeView::SingleCommand(c) => {
                    let o = command_outcome(c, s1.flags, s1.hold, s1.pattern);
                    let s2 = EngineState { flags: o.state, hold: o.hold, pattern: o.pattern, ..s1 };
                    match o.result {
                        CommandResultView::BranchToLabel(l) => {
                            if let Some(t) = p.label_target(l) {
                                lemma_more_fuel_same_answer(
                                    p,
                                    line,
                                    is_last,
                                    EngineState { pc: t as int, ..s2 },
                                    (f - 1) as nat,
                                    (g - 1) as nat,
                                );
                            }
                        },
                        CommandResultView::BranchToStart => {
                            lemma_more_fuel_same_answer(
                                p,
                                line,
                                is_last,
                                EngineState { pc: 0, ..s2 },
                                (f - 1) as nat,
                                (g - 1) as nat,
                            );
                        },
                        CommandResultView::BranchToEnd => {
                            lemma_more_fuel_same_answer(
                                p,
                                line,
                                is_last,
                                EngineState { pc: p.commands.len() as int, ..s2 },
                                (f - 1) as nat,
                                (g - 1) as nat,
                            );
                        },
                        CommandResultView::Nothing => {
                            lemma_more_fuel_same_answer(p, line, is_last, s2, (f - 1) as nat, (g - 1) as nat);
                        },
                        _ => {},
                    }
                },
            }
        }
    }
}

/// When a limited run of the engine gives an answer other than the
/// infinite-loop error, an unlimited run gives the same answer and state.
pub proof fn lemma_limited_agrees_with_unlimited(p: ProgramView, line: nat, is_last: bool, s: EngineState, n: usize)
    requires
        next_effect_spec(p, line, is_last, s, n).1 != Err::<Option<SedEffectView>, EvalErrorView>(
            EvalErrorView::InfiniteLoop,
        ),
    ensures
        next_effect_spec(p, line, is_last, s, 0) == next_effect_spec(p, line, is_last, s, n),
{
    if s.holdover is None {
        lemma_more_fuel_same_answer(p, line, is_last, s, budget_for(n), budget_for(0));
    }
}

/// After `replace_with_next_line(None)` (no more input) at a point where
/// no effect is pending, the engine hands out the pattern space if
/// printing at the end is on, and then nothing more: every later answer is
/// `Ok(None)`.
pub proof fn lemma_replace_without_input_ends_line(p: ProgramView, line: nat, is_last: bool, s: EngineState, n1: usize, n2: usize)
    requires
        s.holdover is None,
    ensures
        ({
            let s1 = replace_with_next_line_spec(p, s, None);
            let (s2, r2) = next_effect_spec(p, line, is_last, s1, n1);
            let (s3, r3) = next_effect_spec(p, line, is_last, s2, n2);
            &&& s.flags.implicit_print_at_end ==> r2 == Ok::<Option<SedEffectView>, EvalErrorView>(
                Some(SedEffectView::Print(s.pattern)),
            ) && r3 == Ok::<Option<SedEffectView>, EvalErrorView>(None)
            &&& !s.flags.implicit_print_at_end ==> r2 == Ok::<Option<SedEffectView>, EvalErrorView>(
                None,
            )
        }),
{
}

/// After `append_next_line(None)` (no more input) at a point where no
/// effect is pending, the engine hands out the pattern space if printing
/// at the end is on, and then nothing more.
pub proof fn lemma_append_without_input_ends_line(p: ProgramView, line: nat, is_last: bool, s: EngineState, n1: usize, n2: usize)
    requires
        s.holdover is None,
    ensures
        ({
            let s1 = append_next_line_spec(p, s, None);
            let (s2, r2) = next_effect_spec(p, line, is_last, s1, n1);
            let (s3, r3) = next_effect_spec(p, line, is_last, s2, n2);
            &&& s.flags.implicit_print_at_end ==> r2 == Ok::<Option<SedEffectView>, EvalErrorView>(
                Some(SedEffectView::Print(s.pattern)),
            ) && r3 == Ok::<Option<SedEffectView>, EvalErrorView>(None)
            &&& !s.flags.implicit_print_at_end ==> r2 == Ok::<Option<SedEffectView>, EvalErrorView>(
                None,
            )
        }),
{
}

/// A program without statements prints its input line unchanged.
pub proof fn lemma_empty_program_echoes(p: ProgramView, src: Seq<char>)
    requires
        p.commands.len() == 0,
    ensures
        eval_spec(p, src) == (src, Ok::<(), EvalErrorView>(())),
{
    let s0 = EngineState {
        pc: 0,
        pattern: src,
        hold: seq![],
        ranges: initial_ranges(p),
        flags: SedLineState { substitution_successful: false, implicit_print_at_end: true },
        holdover: None,
    };
    let (s1, r1) = next_effect_spec(p, 1, true, s0, 0);
    assert(r1 == Ok::<Option<SedEffectView>, EvalErrorView>(Some(SedEffectView::Print(src))));
    assert(seq![] + src =~= src);
    let (s2, r2) = next_effect_spec(p, 1, true, s1, 0);
    assert(r2 == Ok::<Option<SedEffectView>, EvalErrorView>(None));
    assert(eval_from(p, s1, src, (usize::MAX - 1) as nat) == (src, Ok::<(), EvalErrorView>(())));
}

/// A range is active from the line where its start matches through the
/// line where its end matches, both included: on the first line it is
/// active, and it is marked exited exactly when the end also matches
/// there; once entered it stays active, and is exited on the line its end
/// matches.
pub proof fn lemma_range_inclusive(start: AddressView, end: AddressView, line: nat, pattern: Seq<char>, is_last: bool, st: RangeState)
    ensures
        ({
            let f = AddressRangeView::Range { start, end, negated: false };
            let (active, st2) = address_range_active(f, line, pattern, is_last, st);
            &&& (st == RangeState::NotEntered && address_matches(start, line, pattern, is_last))
                ==> active && (st2 == RangeState::Exited <==> address_matches(end, line, pattern, is_last))
            &&& st == RangeState::Entered ==> active && (st2 == RangeState::Exited <==> address_matches(end, line, pattern, is_last))
            &&& st == RangeState::Exited && !address_matches(start, line, pattern, is_last) ==> !active
        }),
{
}

/// How a range statement `start,end` (possibly negated) decides, from its
/// state, whether it runs on a line and what its next state is:
/// - once entered, it runs, and it is exited on the line its end matches;
/// - after it has been exited, it is entered again on a line its start
///   matches, exactly as when it had never been entered (and exited at once
///   if its end matches that line too); on other lines it does not run;
/// - never entered, it is entered on a line its start matches; a start given
///   as a line number counts as matched on every later line too (a jump may
///   have skipped the statement on that very line).
/// A negated range runs exactly on the lines the plain one does not.
pub proof fn lemma_range_state_machine(
    start: AddressView,
    end: AddressView,
    negated: bool,
    line: nat,
    pattern: Seq<char>,
    is_last: bool,
    st: RangeState,
)
    ensures
        ({
            let f = AddressRangeView::Range { start, end, negated };
            let (active, st2) = address_range_active(f, line, pattern, is_last, st);
            let sm = address_matches(start, line, pattern, is_last);
            let em = address_matches(end, line, pattern, is_last);
            let after_start = if em {
                RangeState::Exited
            } else {
                RangeState::Entered
            };
            &&& st == RangeState::Entered ==> active == !negated && st2 == after_start
            &&& st == RangeState::Exited ==> active == (sm != negated) && st2 == (if sm {
                after_start
            } else {
                RangeState::Exited
            })
            &&& (st == RangeState::NotEntered && !(start is LineNumber)) ==> active == (sm != negated) && st2
                == (if sm {
                after_start
            } else {
                RangeState::NotEntered
            })
            &&& st == RangeState::NotEntered ==> (start matches AddressView::LineNumber(l) ==> active == ((line
                >= l) != negated) && st2 == (if line >= l && em {
                RangeState::Exited
            } else {
                RangeState::NotEntered
            }))
        }),
{
}

/// The engine reads `first~step` (with `step` not 0) as selecting every
/// line up to `first`, and from `first` on every `step`-th line: the lines
/// strictly between two selected ones are not selected, and a line is
/// selected exactly when the line `step` further on is.
pub proof fn lemma_step_address_period(first: usize, step: usize, n: nat, pattern: Seq<char>, is_last: bool)
    requires
        step != 0,
    ensures
        ({
            let a = AddressView::Step { first, step };
            &&& n <= first ==> address_matches(a, n, pattern, is_last)
            &&& first < n < first + step ==> !address_matches(a, n, pattern, is_last)
            &&& n >= first ==> (address_matches(a, (n + step) as nat, pattern, is_last) == address_matches(a, n, pattern, is_last))
        }),
{
    if n <= first {
        vstd::arithmetic::div_mod::lemma_small_mod(0, step as nat);
    }
    if first < n < first + step {
        vstd::arithmetic::div_mod::lemma_small_mod((n - first) as nat, step as nat);
    }
    if n >= first {
        vstd::arithmetic::div_mod::lemma_mod_add_multiples_vanish(n - first, step as int);
        assert(saturating_sub((n + step) as nat, first as nat) == step + (n - first));
    }
}

/// When the engine reaches an active `D` and the pattern space holds
/// several lines, it goes on at the first statement with the lines after
/// the first, printing nothing and reading no input.
pub proof fn lemma_delete_first_line_restarts_script(
    p: ProgramView,
    line: nat,
    is_last: bool,
    s: EngineState,
    fuel: nat,
    first: Seq<char>,
    rest: Seq<char>,
)
    requires
        0 <= s.pc < p.commands.len(),
        fuel > 1,
        p.commands[s.pc].command == BlockTypeView::SingleCommand(CommandView::DeleteFirstLine),
        address_range_active(p.commands[s.pc].filter, line, s.pattern, is_last, s.ranges[s.pc]).0,
        s.pattern == first + seq!['\n'] + rest,
        !first.contains('\n'),
    ensures
        run_spec(p, line, is_last, s, fuel) == run_spec(
            p,
            line,
            is_last,
            EngineState {
                pc: 0,
                pattern: rest,
                ranges: s.ranges.update(
                    s.pc,
                    address_range_active(p.commands[s.pc].filter, line, s.pattern, is_last, s.ranges[s.pc]).1,
                ),
                ..s
            },
            (fuel - 1) as nat,
        ),
{
    crate::commands::delete_first_line::lemma_delete_first_line_restarts(s.flags, s.hold, first, rest);
}

/// The `Display` text of a `std::io::Error` (`format!("{}", e)`).
/// Nothing is claimed about it: it comes from the operating system.
#[verifier::external_body]
fn io_error_text(e: &std::io::Error) -> String {
    format!("{}", e)
}

impl EvalError {
    /// A human-readable description of the error.
    pub fn message(&self) -> (r: String)
        ensures
            match self {
                EvalError::LabelNotFound(l) => r@ == "Label not found: '"@ + l@ + "'"@,
                EvalError::InfiniteLoop => r@ == "Infinite loop limit triggered"@,
                EvalError::IoError(_) => r@.take("OS I/O error: "@.len() as int) == "OS I/O error: "@,
                EvalError::Utf8Error => r@ == "Error with UTF-8 string formatting"@,
            },
    {
        match self {
            EvalError::LabelNotFound(l) => {
                let mut r = "Label not found: '".to_owned();
                push_string(&mut r, l.as_str());
                push_string(&mut r, "'");
                r
            },
            EvalError::InfiniteLoop => "Infinite loop limit triggered".to_owned(),
            EvalError::IoError(e) => {
                let mut r = "OS I/O error: ".to_owned();
                let ghost prefix = r@;
                let text = io_error_text(e);
                push_string(&mut r, text.as_str());
                assert(r@.take(prefix.len() as int) =~= prefix);
                r
            },
            EvalError::Utf8Error => "Error with UTF-8 string formatting".to_owned(),
        }
    }
}

} // verus!
