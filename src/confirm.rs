use vstd::prelude::*;

use crate::plan::RenamePlan;

verus! {

/// Message for a plan with no rename.
pub const NO_MATCH_MESSAGE: &'static str =
    "There are no files to rename that match the provided arguments!";

/// Message for a plan the user turned down.
pub const CANCELLED_MESSAGE: &'static str = "Operation cancelled";

/// Why a plan was not carried out.
#[derive(Clone, Copy, Debug, PartialEq, Eq, Structural)]
pub enum Rejection {
    /// The plan holds no rename.
    NoMatchingFiles,
    /// The user answered no.
    Cancelled,
}

impl Rejection {
    /// The message shown for the rejection.
    pub fn message(&self) -> (r: &'static str)
        ensures
            *self == Rejection::NoMatchingFiles ==> r@ == NO_MATCH_MESSAGE@,
            *self == Rejection::Cancelled ==> r@ == CANCELLED_MESSAGE@,
    {
        match self {
            Rejection::NoMatchingFiles => NO_MATCH_MESSAGE,
            Rejection::Cancelled => CANCELLED_MESSAGE,
        }
    }
}

/// What the confirmation gate does next.
#[derive(Clone, Copy, Debug, PartialEq, Eq, Structural)]
pub enum GateStep {
    /// Show the plan (again) and read one line of input.
    Prompt,
    /// Carry out the plan.
    Accept,
    /// Stop without renaming anything.
    Reject(Rejection),
}

/// A name for what `str::trim` returns: the text without leading and trailing
/// whitespace.
pub uninterp spec fn trimmed(s: Seq<char>) -> Seq<char>;

/// Relies on `str::trim`, whose result depends on the characters of its argument alone.
#[verifier::external_body]
fn trim(s: &str) -> (r: &str)
    ensures
        r@ == trimmed(s@),
{
    s.trim()
}

/// The step for an answer with its surrounding whitespace removed: empty, "y" or "Y"
/// accept, "n" or "N" cancel, anything else asks again.
pub open spec fn answer_step(a: Seq<char>) -> GateStep {
    if a == Seq::<char>::empty() || a == seq!['y'] || a == seq!['Y'] {
        GateStep::Accept
    } else if a == seq!['n'] || a == seq!['N'] {
        GateStep::Reject(Rejection::Cancelled)
    } else {
        GateStep::Prompt
    }
}

/// The first step for a plan: an empty plan is rejected at once, with no prompt;
/// any other plan is shown and the user asked.
pub fn open_gate(plan: &RenamePlan) -> (r: GateStep)
    ensures
        plan.spec_targets().len() == 0 ==> r == GateStep::Reject(Rejection::NoMatchingFiles),
        plan.spec_targets().len() > 0 ==> r == GateStep::Prompt,
{
    if plan.is_empty() {
        GateStep::Reject(Rejection::NoMatchingFiles)
    } else {
        GateStep::Prompt
    }
}

/// The step for an answer that has no surrounding whitespace.
pub fn read_answer(answer: &str) -> (r: GateStep)
    ensures
        r == answer_step(answer@),
{
    let n = answer.unicode_len();
    if n == 0 {
        assert(answer@ =~= Seq::<char>::empty());
        return GateStep::Accept;
    }
    if n == 1 {
        let c = answer.get_char(0);
        if c == 'y' || c == 'Y' {
            assert(answer@ =~= seq![c]);
            return GateStep::Accept;
        }
        if c == 'n' || c == 'N' {
            assert(answer@ =~= seq![c]);
            assert(answer@ != Seq::<char>::empty());
            assert(answer@ != seq!['y'] && answer@ != seq!['Y']) by {
                assert(seq!['y'][0] != c && seq!['Y'][0] != c);
            }
            return GateStep::Reject(Rejection::Cancelled);
        }
        assert(answer@[0] == c);
        assert(seq!['y'][0] != c && seq!['Y'][0] != c && seq!['n'][0] != c && seq!['N'][0] != c);
    }
    GateStep::Prompt
}

/// The step for a line the user typed: it is judged with its surrounding whitespace
/// removed.
pub fn on_input(line: &str) -> (r: GateStep)
    ensures
        r == answer_step(trimmed(line@)),
{
    read_answer(trim(line))
}

} // verus!
