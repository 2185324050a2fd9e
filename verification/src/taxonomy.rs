//! The escape taxonomy of one loop: the closed set of reasons for which its
//! body may leave the callback early, and the names the expansion gives them.

use crate::syntax::{external_labels, CbitForExprSingleBreak, ExternalLabel, Label, Lifetime};
use crate::token::{ident, lifetime, toks, Origin, Tok, Token};
use vstd::prelude::*;
use vstd::string::StringExecFns;

verus! {

/// One reason for which the body may leave the callback early.
#[derive(PartialEq, Eq, Debug)]
pub enum EscapeVariant {
    /// The body returns from the enclosing function; carries the value.
    EarlyReturn,
    /// The body breaks out of the loop itself; carries the value.
    EarlyBreak,
    /// The body breaks to a label outside the loop; carries the value.
    BreakTo(Lifetime),
    /// The body continues a loop outside the loop; carries nothing.
    ContinueTo(Lifetime),
}

/// The mathematical value of an [`EscapeVariant`].
pub enum Variant {
    EarlyReturn,
    EarlyBreak,
    BreakTo(Label),
    ContinueTo(Label),
}

impl View for EscapeVariant {
    type V = Variant;

    open spec fn view(&self) -> Variant {
        match self {
            EscapeVariant::EarlyReturn => Variant::EarlyReturn,
            EscapeVariant::EarlyBreak => Variant::EarlyBreak,
            EscapeVariant::BreakTo(l) => Variant::BreakTo(l@),
            EscapeVariant::ContinueTo(l) => Variant::ContinueTo(l@),
        }
    }
}

/// The values of a sequence of variants, one for one.
pub open spec fn variants(s: Seq<EscapeVariant>) -> Seq<Variant> {
    Seq::new(s.len(), |i: int| s[i]@)
}

/// Whether a reason carries a value out of the callback.
pub open spec fn carries_value(v: Variant) -> bool {
    !(v is ContinueTo)
}

/// The reasons to break to the labels, in the order of declaration.
pub open spec fn break_reasons(labels: Seq<ExternalLabel>) -> Seq<Variant> {
    Seq::new(labels.len(), |i: int| Variant::BreakTo(labels[i].label))
}

/// The reasons to continue at the labels that accept it, in the order of
/// declaration.
pub open spec fn continue_reasons(labels: Seq<ExternalLabel>) -> Seq<Variant>
    decreases labels.len(),
{
    if labels.len() == 0 {
        seq![]
    } else if labels.last().accepts_continue {
        continue_reasons(labels.drop_last()).push(Variant::ContinueTo(labels.last().label))
    } else {
        continue_reasons(labels.drop_last())
    }
}

/// The taxonomy of a loop with the given labels: the two reasons that every
/// loop has, then one to break to each label, then one to continue at each
/// label that accepts it.
pub open spec fn taxonomy(labels: Seq<ExternalLabel>) -> Seq<Variant> {
    seq![Variant::EarlyReturn, Variant::EarlyBreak] + break_reasons(labels) + continue_reasons(
        labels,
    )
}

/// How many of the reasons carry a value.
pub open spec fn payload_count(t: Seq<Variant>) -> nat
    decreases t.len(),
{
    if t.len() == 0 {
        0
    } else if carries_value(t.last()) {
        payload_count(t.drop_last()) + 1
    } else {
        payload_count(t.drop_last())
    }
}

/// The name of the variant that stands for a reason, written where its label
/// was written.
pub open spec fn variant_name(v: Variant) -> Tok {
    match v {
        Variant::EarlyReturn => ident("EarlyReturn"@, Origin::CallSite),
        Variant::EarlyBreak => ident("EarlyBreak"@, Origin::CallSite),
        Variant::BreakTo(l) => ident("EarlyBreakTo_"@ + l.name, l.origin),
        Variant::ContinueTo(l) => ident("EarlyContinueTo_"@ + l.name, l.origin),
    }
}

/// The label of the absorber that guards the label `l`: a name of the
/// expansion's own, which the body cannot see.
pub open spec fn absorber_label(l: Label) -> Seq<Tok> {
    lifetime("__cbit_internal_absorber_magic_for_"@ + l.name, Origin::MixedSite)
}

/// The label of the innermost absorber, which guards the loop itself.
pub open spec fn innermost_label() -> Seq<Tok> {
    lifetime("__cbit_internal_absorber_magic_innermost"@, Origin::MixedSite)
}

impl EscapeVariant {
    /// The name of the variant that stands for this reason.
    pub fn name(&self) -> (name: Token)
        ensures
            name@ == variant_name(self@),
    {
        match self {
            EscapeVariant::EarlyReturn => Token::Ident {
                name: String::from_str("EarlyReturn"),
                origin: Origin::CallSite,
            },
            EscapeVariant::EarlyBreak => Token::Ident {
                name: String::from_str("EarlyBreak"),
                origin: Origin::CallSite,
            },
            EscapeVariant::BreakTo(l) => Token::Ident {
                name: String::from_str("EarlyBreakTo_").concat(l.name.as_str()),
                origin: l.origin,
            },
            EscapeVariant::ContinueTo(l) => Token::Ident {
                name: String::from_str("EarlyContinueTo_").concat(l.name.as_str()),
                origin: l.origin,
            },
        }
    }

    /// Whether this reason carries a value out of the callback.
    pub fn carries_value(&self) -> (yes: bool)
        ensures
            yes == carries_value(self@),
    {
        match self {
            EscapeVariant::ContinueTo(_) => false,
            _ => true,
        }
    }
}

/// Appends the label of the absorber that guards `label`.
pub fn push_absorber_label(out: &mut Vec<Token>, label: &Lifetime)
    ensures
        toks(final(out)@) == toks(old(out)@) + absorber_label(label@),
{
    let name = String::from_str("__cbit_internal_absorber_magic_for_").concat(label.name.as_str());
    out.push(Token::Punct { ch: '\'', joint: true, origin: Origin::MixedSite });
    out.push(Token::Ident { name, origin: Origin::MixedSite });
}

/// Derives the taxonomy of a loop from the entries of its break clause.
pub fn build_taxonomy(entries: &Vec<CbitForExprSingleBreak>) -> (t: Vec<EscapeVariant>)
    ensures
        variants(t@) == taxonomy(external_labels(entries@)),
{
    let ghost labels = external_labels(entries@);
    let mut t: Vec<EscapeVariant> = Vec::new();
    t.push(EscapeVariant::EarlyReturn);
    t.push(EscapeVariant::EarlyBreak);
    let ghost intrinsic = seq![Variant::EarlyReturn, Variant::EarlyBreak];
    let mut i: usize = 0;
    while i < entries.len()
        invariant
            i <= entries.len(),
            labels == external_labels(entries@),
            intrinsic == seq![Variant::EarlyReturn, Variant::EarlyBreak],
            variants(t@) == intrinsic + break_reasons(labels.subrange(0, i as int)),
        decreases entries.len() - i,
    {
        let ghost before = t@;
        t.push(EscapeVariant::BreakTo(entries[i].lt.clone()));
        proof {
            let reason = Variant::BreakTo(labels[i as int].label);
            assert(variants(t@) =~= variants(before).push(reason));
        }
        i += 1;
    }
    assert(labels.subrange(0, labels.len() as int) =~= labels);
    let mut j: usize = 0;
    while j < entries.len()
        invariant
            j <= entries.len(),
            labels == external_labels(entries@),
            intrinsic == seq![Variant::EarlyReturn, Variant::EarlyBreak],
            variants(t@) == intrinsic + break_reasons(labels) + continue_reasons(
                labels.subrange(0, j as int),
            ),
        decreases entries.len() - j,
    {
        assert(labels.subrange(0, j + 1).drop_last() =~= labels.subrange(0, j as int));
        if entries[j].kw_loop {
            let ghost before = t@;
            t.push(EscapeVariant::ContinueTo(entries[j].lt.clone()));
            proof {
                let reason = Variant::ContinueTo(labels[j as int].label);
                assert(variants(t@) =~= variants(before).push(reason));
            }
        }
        j += 1;
    }
    t
}

} // verus!
