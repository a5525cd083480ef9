//! Addresses select the input lines a command applies to.
use vstd::prelude::*;

use crate::compiled_regex::{regex_is_match, CompiledRegex};

verus! {

/// Which lines a command runs on.
#[derive(Debug)]
pub enum AddressRange {
    /// Every line.
    All,
    /// The lines matched by `addr` (or, if `negated`, the others).
    Single { addr: Address, negated: bool },
    /// The lines from one matched by `start` up to and including the next
    /// one matched by `end` (or, if `negated`, the others).
    Range { start: Address, end: Address, negated: bool },
}

/// One end of an address.
#[derive(Debug)]
pub enum Address {
    /// The line with this number (lines are numbered from 1).
    LineNumber(usize),
    /// The last line of input.
    Last,
    /// The lines whose pattern space matches the regex.
    Regex(CompiledRegex),
    /// Lines `first`, `first + step`, `first + 2 * step`, ... (and every line
    /// before `first`).
    Step { first: usize, step: usize },
}

/// `a - b`, or 0 if `b > a` (as `usize::saturating_sub`).
pub open spec fn saturating_sub(a: nat, b: nat) -> nat {
    if a >= b {
        (a - b) as nat
    } else {
        0
    }
}

impl Address {
    /// The address can be evaluated without dividing by zero.
    pub open spec fn well_formed(&self) -> bool {
        match self {
            Address::Step { step, .. } => *step != 0,
            _ => true,
        }
    }

    /// Whether the line with the given number and pattern space is selected.
    pub open spec fn spec_matches(&self, line_index: nat, pattern: Seq<char>, is_last: bool) -> bool {
        match self {
            Address::LineNumber(l) => *l == line_index,
            Address::Last => is_last,
            Address::Regex(re) => regex_is_match(re.source(), re.is_case_insensitive(), pattern),
            Address::Step { first, step } => saturating_sub(line_index, *first as nat) % (
            *step as nat) == 0,
        }
    }

    /// Whether the line with the given number and pattern space is selected.
    pub fn matches(&self, line_index: usize, pattern: &str, is_last: bool) -> (r: bool)
        requires
            self.well_formed(),
        ensures
            r == self.spec_matches(line_index as nat, pattern@, is_last),
    {
        match self {
            Address::LineNumber(l) => *l == line_index,
            Address::Last => is_last,
            Address::Regex(regex) => regex.is_match(pattern),
            Address::Step { first, step } => (line_index.saturating_sub(*first) % *step) == 0,
        }
    }
}

impl AddressRange {
    /// Every address in the range can be evaluated.
    pub open spec fn well_formed(&self) -> bool {
        match self {
            AddressRange::All => true,
            AddressRange::Single { addr, .. } => addr.well_formed(),
            AddressRange::Range { start, end, .. } => start.well_formed() && end.well_formed(),
        }
    }

    /// The same range with its negation flag flipped.
    pub open spec fn spec_inverted(self) -> Option<AddressRange> {
        match self {
            AddressRange::All => None,
            AddressRange::Single { addr, negated } => Some(
                AddressRange::Single { addr, negated: !negated },
            ),
            AddressRange::Range { start, end, negated } => Some(
                AddressRange::Range { start, end, negated: !negated },
            ),
        }
    }

    /// The complement of the range; `None` for `All`, which has no
    /// representable complement.
    pub fn inverted(self) -> (r: Option<AddressRange>)
        ensures
            r == self.spec_inverted(),
    {
        match self {
            AddressRange::All => None,
            AddressRange::Single { addr, negated } => Some(
                AddressRange::Single { addr, negated: !negated },
            ),
            AddressRange::Range { start, end, negated } => Some(
                AddressRange::Range { start, end, negated: !negated },
            ),
        }
    }
}

/// Inverting a range twice gives it back (a range other than `All`).
pub proof fn lemma_inverted_twice(r: AddressRange)
    requires
        !(r is All),
    ensures
        r.spec_inverted() matches Some(r2) && r2.spec_inverted() == Some(r),
{
}

/// `first~step` (with `step` not 0) selects every line up to `first`, and
/// from `first` on every `step`-th line: the lines strictly between two
/// selected ones are not selected, and a line is selected exactly when the
/// line `step` further on is (e.g. `0~3` selects 3 and 6, not 4 or 5).
pub proof fn lemma_step_selects_every_step_th_line(first: usize, step: usize, n: nat, pattern: Seq<char>, is_last: bool)
    requires
        step != 0,
    ensures
        ({
            let a = Address::Step { first, step };
            &&& n <= first ==> a.spec_matches(n, pattern, is_last)
            &&& first < n < first + step ==> !a.spec_matches(n, pattern, is_last)
            &&& n >= first ==> (a.spec_matches((n + step) as nat, pattern, is_last) == a.spec_matches(n, pattern, is_last))
        }),
{
    if n <= first {
        vstd::arithmetic::div_mod::lemma_small_mod(0, step as nat);
    }
    if first < n < first + step {
        vstd::arithmetic::div_mod::lemma_small_mod((n - first) as nat, step as nat);
    }
    if n >= first {
        vstd::arithmetic::div_mod::lemma_mod_add_multiples_vanish(n - first, step as int);
        assert(saturating_sub((n + step) as nat, first as nat) == step + (n - first));
    }
}

} // verus!
