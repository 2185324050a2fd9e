//! What the expansion does when it runs, as a model that can be run itself.
//!
//! The body of the loop is not looked into. On each element it either runs to
//! its end or leaves by a jump; the model starts from that. The absorbers
//! decide which jump is whose, the relay closure turns it into the answer of
//! the callback, and the dispatcher replays the jump behind the call.

use crate::syntax::{
    external_labels, find_named, first_named, lemma_first_named, CbitForExpr, LoopSpec,
};
use core::ops::ControlFlow;
use vstd::prelude::*;

verus! {

/// What the body does with one element.
#[derive(PartialEq, Eq, Debug)]
pub enum Jump<T> {
    /// It runs to its end, with this value.
    Complete(T),
    /// `return value`
    Return(T),
    /// `break value` or `break 'label value`
    Break { label: Option<String>, value: T },
    /// `continue` or `continue 'label`
    Continue { label: Option<String> },
    /// It suspends by itself, which no body may do.
    Suspend,
}

/// The mathematical value of a [`Jump`].
pub enum Leave<T> {
    Complete(T),
    Return(T),
    Break { label: Option<Seq<char>>, value: T },
    Continue { label: Option<Seq<char>> },
    Suspend,
}

/// The name in a label that a jump may carry.
pub open spec fn label_name(label: Option<String>) -> Option<Seq<char>> {
    match label {
        Some(name) => Some(name@),
        None => None,
    }
}

impl<T> View for Jump<T> {
    type V = Leave<T>;

    open spec fn view(&self) -> Leave<T> {
        match self {
            Jump::Complete(v) => Leave::Complete(*v),
            Jump::Return(v) => Leave::Return(*v),
            Jump::Break { label, value } => Leave::Break {
                label: label_name(*label),
                value: *value,
            },
            Jump::Continue { label } => Leave::Continue { label: label_name(*label) },
            Jump::Suspend => Leave::Suspend,
        }
    }
}

/// The values of a sequence of jumps, one for one.
pub open spec fn leaves<T>(jumps: Seq<Jump<T>>) -> Seq<Leave<T>> {
    Seq::new(jumps.len(), |i: int| jumps[i]@)
}

/// The reason that the callback hands to the iterating function when the
/// body leaves early.
#[derive(PartialEq, Eq, Debug)]
pub enum EscapeReason<T> {
    /// The enclosing function returns this value.
    EarlyReturn(T),
    /// The loop itself ends with this value.
    EarlyBreak(T),
    /// The block or loop of this label ends with this value.
    BreakTo(String, T),
    /// The loop of this label goes on with its next pass.
    ContinueTo(String),
}

/// The mathematical value of an [`EscapeReason`].
pub enum Reason<T> {
    EarlyReturn(T),
    EarlyBreak(T),
    BreakTo(Seq<char>, T),
    ContinueTo(Seq<char>),
}

impl<T> View for EscapeReason<T> {
    type V = Reason<T>;

    open spec fn view(&self) -> Reason<T> {
        match self {
            EscapeReason::EarlyReturn(v) => Reason::EarlyReturn(*v),
            EscapeReason::EarlyBreak(v) => Reason::EarlyBreak(*v),
            EscapeReason::BreakTo(l, v) => Reason::BreakTo(l@, *v),
            EscapeReason::ContinueTo(l) => Reason::ContinueTo(l@),
        }
    }
}

/// What happens in the enclosing function once the call has returned.
#[derive(PartialEq, Eq, Debug)]
pub enum Replay<T> {
    /// `return value`
    Return(T),
    /// No jump: the loop is an expression with this value.
    Value(T),
    /// `break 'label value`
    Break(String, T),
    /// `continue 'label`
    Continue(String),
}

/// The mathematical value of a [`Replay`].
pub enum Action<T> {
    Return(T),
    Value(T),
    Break(Seq<char>, T),
    Continue(Seq<char>),
}

impl<T> View for Replay<T> {
    type V = Action<T>;

    open spec fn view(&self) -> Action<T> {
        match self {
            Replay::Return(v) => Action::Return(*v),
            Replay::Value(v) => Action::Value(*v),
            Replay::Break(l, v) => Action::Break(l@, *v),
            Replay::Continue(l) => Action::Continue(l@),
        }
    }
}

/// A body that the expansion cannot serve.
#[derive(Clone, Copy, PartialEq, Eq, Structural, Debug)]
pub enum Fault {
    /// The body jumps to a label that is neither the loop's own nor one of
    /// the break clause. The host language, which resolves the labels,
    /// refuses the expansion of such a body.
    UnknownLabel,
    /// The body continues at a label that is declared, but not as one that
    /// accepts `continue`. The host language refuses this too.
    NotALoop,
    /// The body suspends by itself. The relay closure finds the shared slot
    /// empty and fails loudly.
    Misuse,
}

/// The absorber that takes a jump.
pub enum Target {
    /// The innermost one, which guards the loop itself.
    Innermost,
    /// The one of the entry of the break clause at this position.
    Layer(int),
}

/// The absorber that takes a jump with the given label. Labels resolve from
/// the inside out: a jump without a label and one to the loop's own label
/// belong to the innermost absorber; any other belongs to the first entry of
/// the break clause that declares its label.
pub open spec fn resolve(spec: LoopSpec, label: Option<Seq<char>>) -> Option<Target> {
    match label {
        None => Some(Target::Innermost),
        Some(name) => if spec.loop_label matches Some(own) && own.name == name {
            Some(Target::Innermost)
        } else if first_named(spec.escape_labels, name, 0) < spec.escape_labels.len() {
            Some(Target::Layer(first_named(spec.escape_labels, name, 0)))
        } else {
            None
        },
    }
}

/// What the relay closure answers for one element, given how the body leaves.
///
/// A body that runs to its end lets the iteration go on with its value, and
/// so does a `continue` of the loop itself, with the default value. Every
/// other jump that an absorber takes ends the iteration with its reason.
pub open spec fn relayed<T>(spec: LoopSpec, leave: Leave<T>, default: T) -> Result<
    ControlFlow<Reason<T>, T>,
    Fault,
> {
    match leave {
        Leave::Complete(v) => Ok(ControlFlow::Continue(v)),
        Leave::Return(v) => Ok(ControlFlow::Break(Reason::EarlyReturn(v))),
        Leave::Break { label, value } => match resolve(spec, label) {
            Some(Target::Innermost) => Ok(ControlFlow::Break(Reason::EarlyBreak(value))),
            Some(Target::Layer(i)) => Ok(
                ControlFlow::Break(Reason::BreakTo(spec.escape_labels[i].label.name, value)),
            ),
            None => Err(Fault::UnknownLabel),
        },
        Leave::Continue { label } => match resolve(spec, label) {
            Some(Target::Innermost) => Ok(ControlFlow::Continue(default)),
            Some(Target::Layer(i)) => if spec.escape_labels[i].accepts_continue {
                Ok(ControlFlow::Break(Reason::ContinueTo(spec.escape_labels[i].label.name)))
            } else {
                Err(Fault::NotALoop)
            },
            None => Err(Fault::UnknownLabel),
        },
        Leave::Suspend => Err(Fault::Misuse),
    }
}

/// What the dispatcher does with the result of the call.
pub open spec fn replayed<T>(result: ControlFlow<Reason<T>, T>) -> Action<T> {
    match result {
        ControlFlow::Break(Reason::EarlyReturn(v)) => Action::Return(v),
        ControlFlow::Break(Reason::EarlyBreak(v)) => Action::Value(v),
        ControlFlow::Break(Reason::BreakTo(l, v)) => Action::Break(l, v),
        ControlFlow::Break(Reason::ContinueTo(l)) => Action::Continue(l),
        ControlFlow::Continue(v) => Action::Value(v),
    }
}

/// The run of the loop from the element at position `k` on.
pub open spec fn driven_from<T>(
    spec: LoopSpec,
    on: Seq<Leave<T>>,
    k: int,
    default: T,
    exhausted: T,
) -> Result<(nat, Action<T>), Fault>
    decreases on.len() - k,
{
    if k < 0 || k >= on.len() {
        Ok((on.len(), Action::Value(exhausted)))
    } else {
        match relayed(spec, on[k], default) {
            Err(u) => Err(u),
            Ok(ControlFlow::Break(reason)) => Ok(
                ((k + 1) as nat, replayed(ControlFlow::Break(reason))),
            ),
            Ok(ControlFlow::Continue(_)) => driven_from(spec, on, k + 1, default, exhausted),
        }
    }
}

/// One run of the loop over the elements on which the body leaves as `on`
/// says, in order: how many elements are delivered, and what happens behind
/// the call. The iterating function delivers until a callback ends the
/// iteration, and returns `exhausted` when none did.
pub open spec fn driven<T>(spec: LoopSpec, on: Seq<Leave<T>>, default: T, exhausted: T) -> Result<
    (nat, Action<T>),
    Fault,
> {
    driven_from(spec, on, 0, default, exhausted)
}

/// One run of the loop: how many elements were delivered, and what happens
/// behind the call.
#[derive(PartialEq, Eq, Debug)]
pub struct Run<T> {
    pub delivered: usize,
    pub replay: Replay<T>,
}

/// The absorber that takes a jump, as the relay reports it.
enum Taken {
    Innermost,
    Layer { accepts_continue: bool },
    Nobody,
}

impl CbitForExpr {
    fn take(&self, label: &Option<String>) -> (taken: Taken)
        ensures
            match taken {
                Taken::Innermost => resolve(self@, label_name(*label)) == Some(Target::Innermost),
                Taken::Layer { accepts_continue } => {
                    &&& resolve(self@, label_name(*label)) matches Some(Target::Layer(i))
                    &&& 0 <= i < self@.escape_labels.len()
                    &&& self@.escape_labels[i].accepts_continue == accepts_continue
                    &&& label matches Some(name)
                    &&& self@.escape_labels[i].label.name == name@
                },
                Taken::Nobody => resolve(self@, label_name(*label)) is None,
            },
    {
        let name = match label {
            None => {
                return Taken::Innermost;
            },
            Some(name) => name,
        };
        match &self.label {
            Some(own) => {
                if own.name == *name {
                    return Taken::Innermost;
                }
            },
            None => {},
        }
        match &self.breaks {
            Some(clause) => {
                let at = find_named(&clause.lt, name);
                if at < clause.lt.len() {
                    proof {
                        lemma_first_named(external_labels(clause.lt@), name@, 0);
                    }
                    Taken::Layer { accepts_continue: clause.lt[at].kw_loop }
                } else {
                    Taken::Nobody
                }
            },
            None => Taken::Nobody,
        }
    }

    /// What the relay closure of this loop answers for one element, given
    /// how the body leaves; `default` is the default value of what the
    /// callback lets the iteration go on with.
    pub fn relay<T>(&self, jump: Jump<T>, default: T) -> (answer: Result<
        ControlFlow<EscapeReason<T>, T>,
        Fault,
    >)
        ensures
            match answer {
                Ok(ControlFlow::Continue(v)) => relayed(self@, jump@, default) == Ok::<
                    ControlFlow<Reason<T>, T>,
                    Fault,
                >(ControlFlow::Continue(v)),
                Ok(ControlFlow::Break(reason)) => relayed(self@, jump@, default) == Ok::<
                    ControlFlow<Reason<T>, T>,
                    Fault,
                >(ControlFlow::Break(reason@)),
                Err(u) => relayed(self@, jump@, default) == Err::<
                    ControlFlow<Reason<T>, T>,
                    Fault,
                >(u),
            },
    {
        match jump {
            Jump::Complete(v) => Ok(ControlFlow::Continue(v)),
            Jump::Return(v) => Ok(ControlFlow::Break(EscapeReason::EarlyReturn(v))),
            Jump::Break { label, value } => match self.take(&label) {
                Taken::Innermost => Ok(ControlFlow::Break(EscapeReason::EarlyBreak(value))),
                Taken::Layer { .. } => match label {
                    Some(name) => Ok(ControlFlow::Break(EscapeReason::BreakTo(name, value))),
                    None => Err(Fault::UnknownLabel),
                },
                Taken::Nobody => Err(Fault::UnknownLabel),
            },
            Jump::Continue { label } => match self.take(&label) {
                Taken::Innermost => Ok(ControlFlow::Continue(default)),
                Taken::Layer { accepts_continue } => match label {
                    Some(name) => if accepts_continue {
                        Ok(ControlFlow::Break(EscapeReason::ContinueTo(name)))
                    } else {
                        Err(Fault::NotALoop)
                    },
                    None => Err(Fault::UnknownLabel),
                },
                Taken::Nobody => Err(Fault::UnknownLabel),
            },
            Jump::Suspend => Err(Fault::Misuse),
        }
    }

    /// Runs the loop over the elements on which the body leaves as `jumps`
    /// say, in order, as an iterating function does that keeps to the
    /// calling convention: it delivers until a callback ends the iteration,
    /// and returns `exhausted` when none did.
    pub fn drive<T: Copy>(&self, jumps: Vec<Jump<T>>, default: T, exhausted: T) -> (run: Result<
        Run<T>,
        Fault,
    >)
        ensures
            match run {
                Ok(run) => driven(self@, leaves(jumps@), default, exhausted) == Ok::<
                    (nat, Action<T>),
                    Fault,
                >((run.delivered as nat, run.replay@)),
                Err(u) => driven(self@, leaves(jumps@), default, exhausted) == Err::<
                    (nat, Action<T>),
                    Fault,
                >(u),
            },
    {
        let ghost on = leaves(jumps@);
        let total = jumps.len();
        let mut rest = jumps;
        let mut delivered: usize = 0;
        while rest.len() > 0
            invariant
                on == leaves(jumps@),
                on.len() == total,
                delivered + rest.len() == on.len(),
                leaves(rest@) == on.subrange(delivered as int, on.len() as int),
                driven(self@, on, default, exhausted) == driven_from(
                    self@,
                    on,
                    delivered as int,
                    default,
                    exhausted,
                ),
            decreases rest.len(),
        {
            let ghost before = rest@;
            let jump = rest.remove(0);
            assert(jump@ == on[delivered as int]) by {
                assert(leaves(before)[0] == before[0]@);
            }
            assert(leaves(rest@) =~= on.subrange(delivered + 1, on.len() as int)) by {
                assert forall|i: int| 0 <= i < rest@.len() implies leaves(rest@)[i] == on[delivered
                    + 1 + i] by {
                    assert(leaves(before)[i + 1] == before[i + 1]@);
                }
            }
            delivered += 1;
            match self.relay(jump, default) {
                Err(u) => {
                    return Err(u);
                },
                Ok(ControlFlow::Break(reason)) => {
                    return Ok(Run { delivered, replay: dispatch(ControlFlow::Break(reason)) });
                },
                Ok(ControlFlow::Continue(_)) => {},
            }
        }
        Ok(Run { delivered, replay: Replay::Value(exhausted) })
    }
}

/// What the dispatcher does with the result of the call: it replays the jump
/// of a reason, and takes a result without a reason as the value of the loop.
pub fn dispatch<T>(result: ControlFlow<EscapeReason<T>, T>) -> (replay: Replay<T>)
    ensures
        replay@ == replayed(
            match result {
                ControlFlow::Break(reason) => ControlFlow::Break(reason@),
                ControlFlow::Continue(v) => ControlFlow::Continue(v),
            },
        ),
{
    match result {
        ControlFlow::Break(EscapeReason::EarlyReturn(v)) => Replay::Return(v),
        ControlFlow::Break(EscapeReason::EarlyBreak(v)) => Replay::Value(v),
        ControlFlow::Break(EscapeReason::BreakTo(l, v)) => Replay::Break(l, v),
        ControlFlow::Break(EscapeReason::ContinueTo(l)) => Replay::Continue(l),
        ControlFlow::Continue(v) => Replay::Value(v),
    }
}

} // verus!
