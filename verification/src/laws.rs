//! What holds of every loop and every body: the jumps of the body arrive
//! behind the call as they were made, and nothing is delivered after one.

use crate::expand::{
    absorber, expansion, layered, placeholders, type_params, user_label, with_callback,
};
use crate::relay::{driven, driven_from, relayed, replayed, Action, Fault, Leave, Reason};
use crate::subgrammar::CallShape;
use crate::syntax::{
    distinct, first_named, header, last_dot, lemma_attr_prefix, lemma_first_ident,
    lemma_first_named, lemma_last_dot, parsed_loop, pattern_tokens, source_call, ExternalLabel,
    Label, LoopSpec, SourceCall,
};
use crate::taxonomy::{
    absorber_label, break_reasons, carries_value, continue_reasons, innermost_label,
    payload_count, taxonomy, variant_name, Variant,
};
use crate::token::{is_group, is_ident, is_punct, Delimiter, Origin, Tok};
use core::ops::ControlFlow;
use vstd::prelude::*;

verus! {

/// Whether the iteration goes on behind the element on which the body leaves
/// like this.
pub open spec fn goes_on<T>(spec: LoopSpec, leave: Leave<T>, default: T) -> bool {
    relayed(spec, leave, default) matches Ok(ControlFlow::Continue(_))
}

/// Whether the iteration goes on behind each of the first `k` elements.
pub open spec fn reaches<T>(spec: LoopSpec, on: Seq<Leave<T>>, k: int, default: T) -> bool {
    forall|i: int| 0 <= i < k ==> goes_on(spec, #[trigger] on[i], default)
}

/// A run that goes on behind every element before `k` is the run from `k` on.
pub proof fn lemma_driven_reaches<T>(
    spec: LoopSpec,
    on: Seq<Leave<T>>,
    from: int,
    k: int,
    default: T,
    exhausted: T,
)
    requires
        0 <= from <= k <= on.len(),
        forall|i: int| from <= i < k ==> goes_on(spec, #[trigger] on[i], default),
    ensures
        driven_from(spec, on, from, default, exhausted) == driven_from(
            spec,
            on,
            k,
            default,
            exhausted,
        ),
    decreases k - from,
{
    if from < k {
        assert(goes_on(spec, on[from], default));
        lemma_driven_reaches(spec, on, from + 1, k, default, exhausted);
    }
}

/// The first escape decides the run: where the iteration reaches the element
/// `k` and the callback ends it there with `reason`, exactly `k + 1` elements
/// are delivered, and the dispatcher replays `reason`.
pub proof fn lemma_first_escape<T>(
    spec: LoopSpec,
    on: Seq<Leave<T>>,
    k: int,
    reason: Reason<T>,
    default: T,
    exhausted: T,
)
    requires
        0 <= k < on.len(),
        reaches(spec, on, k, default),
        relayed(spec, on[k], default) == Ok::<ControlFlow<Reason<T>, T>, Fault>(
            ControlFlow::Break(reason),
        ),
    ensures
        driven(spec, on, default, exhausted) == Ok::<(nat, Action<T>), Fault>(
            ((k + 1) as nat, replayed(ControlFlow::Break(reason))),
        ),
{
    lemma_driven_reaches(spec, on, 0, k, default, exhausted);
}

/// Normal completion. Where the body runs to its end on every element, the
/// callback lets the iteration go on with the body's own value each time,
/// every element is delivered, and the loop has the value that the iterating
/// function returns.
pub proof fn law_normal_completion<T>(spec: LoopSpec, on: Seq<Leave<T>>, default: T, exhausted: T)
    requires
        forall|i: int| 0 <= i < on.len() ==> #[trigger] on[i] is Complete,
    ensures
        forall|i: int|
            0 <= i < on.len() ==> relayed(spec, #[trigger] on[i], default) == Ok::<
                ControlFlow<Reason<T>, T>,
                Fault,
            >(ControlFlow::Continue(on[i]->Complete_0)),
        driven(spec, on, default, exhausted) == Ok::<(nat, Action<T>), Fault>(
            (on.len(), Action::Value(exhausted)),
        ),
{
    assert forall|i: int| 0 <= i < on.len() implies goes_on(spec, #[trigger] on[i], default) by {
        assert(on[i] is Complete);
    }
    lemma_driven_reaches(spec, on, 0, on.len() as int, default, exhausted);
}

/// Early return. Where the body returns `v` on the element `k`, the enclosing
/// function returns `v`, and no element after `k` is delivered.
pub proof fn law_early_return<T>(
    spec: LoopSpec,
    on: Seq<Leave<T>>,
    k: int,
    v: T,
    default: T,
    exhausted: T,
)
    requires
        0 <= k < on.len(),
        reaches(spec, on, k, default),
        on[k] == Leave::Return(v),
    ensures
        driven(spec, on, default, exhausted) == Ok::<(nat, Action<T>), Fault>(
            ((k + 1) as nat, Action::Return(v)),
        ),
{
    lemma_first_escape(spec, on, k, Reason::EarlyReturn(v), default, exhausted);
}

/// Break with a value. Where the body breaks with `v` on the element `k`,
/// without a label or to the loop's own, the loop has the value `v`, and no
/// element after `k` is delivered.
pub proof fn law_break_with_value<T>(
    spec: LoopSpec,
    on: Seq<Leave<T>>,
    k: int,
    v: T,
    default: T,
    exhausted: T,
)
    requires
        0 <= k < on.len(),
        reaches(spec, on, k, default),
        on[k] matches Leave::Break { label, value } && value == v && (label matches Some(name)
            ==> spec.loop_label matches Some(own) && own.name == name),
    ensures
        driven(spec, on, default, exhausted) == Ok::<(nat, Action<T>), Fault>(
            ((k + 1) as nat, Action::Value(v)),
        ),
{
    lemma_first_escape(spec, on, k, Reason::EarlyBreak(v), default, exhausted);
}

/// Continue. Where the body continues on the element `k`, without a label or
/// at the loop's own, the callback lets the iteration go on with the default
/// value: the run is the one in which the body ran to its end there with that
/// value, and it goes on with the element behind `k`.
pub proof fn law_continue<T>(
    spec: LoopSpec,
    on: Seq<Leave<T>>,
    k: int,
    default: T,
    exhausted: T,
)
    requires
        0 <= k < on.len(),
        on[k] matches Leave::Continue { label } && (label matches Some(name)
            ==> spec.loop_label matches Some(own) && own.name == name),
    ensures
        relayed(spec, on[k], default) == Ok::<ControlFlow<Reason<T>, T>, Fault>(
            ControlFlow::Continue(default),
        ),
        driven(spec, on, default, exhausted) == driven(
            spec,
            on.update(k, Leave::Complete(default)),
            default,
            exhausted,
        ),
        reaches(spec, on, k, default) ==> driven(spec, on, default, exhausted) == driven_from(
            spec,
            on,
            k + 1,
            default,
            exhausted,
        ),
{
    lemma_same_answers(spec, on, on.update(k, Leave::Complete(default)), 0, default, exhausted);
    if reaches(spec, on, k, default) {
        lemma_driven_reaches(spec, on, 0, k + 1, default, exhausted);
    }
}

/// Two runs over bodies that get the same answer from the relay closure on
/// every element are the same run.
pub proof fn lemma_same_answers<T>(
    spec: LoopSpec,
    on: Seq<Leave<T>>,
    other: Seq<Leave<T>>,
    from: int,
    default: T,
    exhausted: T,
)
    requires
        0 <= from,
        on.len() == other.len(),
        forall|i: int|
            from <= i < on.len() ==> relayed(spec, #[trigger] on[i], default) == relayed(
                spec,
                other[i],
                default,
            ),
    ensures
        driven_from(spec, on, from, default, exhausted) == driven_from(
            spec,
            other,
            from,
            default,
            exhausted,
        ),
    decreases on.len() - from,
{
    if from < on.len() {
        assert(relayed(spec, on[from], default) == relayed(spec, other[from], default));
        lemma_same_answers(spec, on, other, from + 1, default, exhausted);
    }
}

/// Break to a label outside. Where the break clause declares `x` at any
/// position `j`, the loop's own label is another, and the body breaks to `x`
/// with `v` on the element `k`, the block or loop of `x` ends with `v`, and
/// no element after `k` is delivered.
pub proof fn law_break_to_label<T>(
    spec: LoopSpec,
    on: Seq<Leave<T>>,
    k: int,
    j: int,
    x: Seq<char>,
    v: T,
    default: T,
    exhausted: T,
)
    requires
        0 <= j < spec.escape_labels.len(),
        spec.escape_labels[j].label.name == x,
        !(spec.loop_label matches Some(own) && own.name == x),
        0 <= k < on.len(),
        reaches(spec, on, k, default),
        on[k] == (Leave::Break { label: Some(x), value: v }),
    ensures
        driven(spec, on, default, exhausted) == Ok::<(nat, Action<T>), Fault>(
            ((k + 1) as nat, Action::Break(x, v)),
        ),
{
    lemma_first_named(spec.escape_labels, x, 0);
    lemma_first_escape(spec, on, k, Reason::BreakTo(x, v), default, exhausted);
}

/// Continue at a loop outside. Where the break clause declares `y` at any
/// position `j` as a label that accepts `continue` and declares no label
/// twice, the loop's own label is another, and the body continues at `y` on
/// the element `k`, the loop of `y` goes on with its next pass, and no
/// element after `k` is delivered.
pub proof fn law_continue_to_label<T>(
    spec: LoopSpec,
    on: Seq<Leave<T>>,
    k: int,
    j: int,
    y: Seq<char>,
    default: T,
    exhausted: T,
)
    requires
        distinct(spec.escape_labels),
        0 <= j < spec.escape_labels.len(),
        spec.escape_labels[j].label.name == y,
        spec.escape_labels[j].accepts_continue,
        !(spec.loop_label matches Some(own) && own.name == y),
        0 <= k < on.len(),
        reaches(spec, on, k, default),
        on[k] == (Leave::<T>::Continue { label: Some(y) }),
    ensures
        driven(spec, on, default, exhausted) == Ok::<(nat, Action<T>), Fault>(
            ((k + 1) as nat, Action::Continue(y)),
        ),
{
    lemma_first_named(spec.escape_labels, y, 0);
    assert(first_named(spec.escape_labels, y, 0) == j);
    lemma_first_escape(spec, on, k, Reason::ContinueTo(y), default, exhausted);
}

/// Sibling loops. Two loops that declare the same label answer a jump to it
/// alike, whatever else either declares behind the label or does in its
/// body: each names the label in its reason, and the label itself belongs to
/// the scope in which the loop stands.
pub proof fn law_sibling_loops<T>(a: LoopSpec, b: LoopSpec, x: Seq<char>, v: T, default: T)
    requires
        first_named(a.escape_labels, x, 0) < a.escape_labels.len(),
        first_named(b.escape_labels, x, 0) < b.escape_labels.len(),
        !(a.loop_label matches Some(own) && own.name == x),
        !(b.loop_label matches Some(own) && own.name == x),
    ensures
        relayed(a, Leave::Break { label: Some(x), value: v }, default) == relayed(
            b,
            Leave::Break { label: Some(x), value: v },
            default,
        ),
        relayed(a, Leave::Break { label: Some(x), value: v }, default) == Ok::<
            ControlFlow<Reason<T>, T>,
            Fault,
        >(ControlFlow::Break(Reason::BreakTo(x, v))),
{
    lemma_first_named(a.escape_labels, x, 0);
    lemma_first_named(b.escape_labels, x, 0);
}

/// Whether a variant of the taxonomy stands for a reason.
pub open spec fn stands_for<T>(v: Variant, reason: Reason<T>) -> bool {
    match reason {
        Reason::EarlyReturn(_) => v is EarlyReturn,
        Reason::EarlyBreak(_) => v is EarlyBreak,
        Reason::BreakTo(name, _) => v matches Variant::BreakTo(l) && l.name == name,
        Reason::ContinueTo(name) => v matches Variant::ContinueTo(l) && l.name == name,
    }
}

/// The label of a variant that has one.
pub open spec fn label_of(v: Variant) -> Label {
    match v {
        Variant::BreakTo(l) => l,
        Variant::ContinueTo(l) => l,
        _ => arbitrary(),
    }
}

/// The reasons to continue are those of the labels that accept it, in the
/// order of declaration: each stands at a position of its own among the
/// labels, and a later one at a later position.
pub proof fn lemma_continue_reasons(labels: Seq<ExternalLabel>) -> (at: Seq<int>)
    ensures
        at.len() == continue_reasons(labels).len(),
        continue_reasons(labels).len() <= labels.len(),
        forall|j: int|
            0 <= j < at.len() ==> 0 <= #[trigger] at[j] < labels.len()
                && labels[at[j]].accepts_continue && continue_reasons(labels)[j]
                == Variant::ContinueTo(labels[at[j]].label),
        forall|i: int, j: int| 0 <= i < j < at.len() ==> at[i] < at[j],
        forall|k: int|
            0 <= k < labels.len() && labels[k].accepts_continue ==> exists|j: int|
                0 <= j < at.len() && #[trigger] at[j] == k,
    decreases labels.len(),
{
    if labels.len() == 0 {
        Seq::empty()
    } else {
        let before = lemma_continue_reasons(labels.drop_last());
        let last = labels.len() - 1;
        if labels.last().accepts_continue {
            let at = before.push(last);
            assert(at[at.len() - 1] == last);
            assert forall|k: int|
                0 <= k < labels.len() && labels[k].accepts_continue implies exists|j: int|
                0 <= j < at.len() && #[trigger] at[j] == k by {
                if k < last {
                    assert(labels.drop_last()[k].accepts_continue);
                    let j = choose|j: int| 0 <= j < before.len() && #[trigger] before[j] == k;
                    assert(at[j] == k);
                }
            }
            at
        } else {
            assert forall|k: int|
                0 <= k < labels.len() && labels[k].accepts_continue implies exists|j: int|
                0 <= j < before.len() && #[trigger] before[j] == k by {
                assert(labels.drop_last()[k].accepts_continue);
            }
            before
        }
    }
}

/// The count of the reasons that carry a value, over a taxonomy in two parts.
pub proof fn lemma_payload_count_add(a: Seq<Variant>, b: Seq<Variant>)
    ensures
        payload_count(a + b) == payload_count(a) + payload_count(b),
    decreases b.len(),
{
    if b.len() == 0 {
        assert(a + b =~= a);
    } else {
        assert((a + b).drop_last() =~= a + b.drop_last());
        lemma_payload_count_add(a, b.drop_last());
    }
}

/// The count of the reasons that carry a value, where all do or none does.
pub proof fn lemma_payload_count_uniform(t: Seq<Variant>, carrying: bool)
    requires
        forall|i: int| 0 <= i < t.len() ==> carries_value(#[trigger] t[i]) == carrying,
    ensures
        payload_count(t) == if carrying {
            t.len()
        } else {
            0
        },
    decreases t.len(),
{
    if t.len() > 0 {
        assert(carries_value(t[t.len() - 1]) == carrying);
        lemma_payload_count_uniform(t.drop_last(), carrying);
    }
}

/// The size of the taxonomy. A loop with `n` labels has two reasons of its
/// own, `n` to break and at most `n` to continue; `n + 2` of them carry a
/// value, and the type of the reasons has as many type parameters.
pub proof fn law_taxonomy_size(labels: Seq<ExternalLabel>)
    ensures
        taxonomy(labels).len() == 2 + labels.len() + continue_reasons(labels).len(),
        continue_reasons(labels).len() <= labels.len(),
        payload_count(taxonomy(labels)) == labels.len() + 2,
{
    let at = lemma_continue_reasons(labels);
    let own = seq![Variant::EarlyReturn, Variant::EarlyBreak];
    lemma_payload_count_uniform(own, true);
    lemma_payload_count_uniform(break_reasons(labels), true);
    assert forall|i: int| 0 <= i < continue_reasons(labels).len() implies !carries_value(
        #[trigger] continue_reasons(labels)[i],
    ) by {
        assert(0 <= at[i] < labels.len());
    }
    lemma_payload_count_uniform(continue_reasons(labels), false);
    lemma_payload_count_add(own, break_reasons(labels));
    lemma_payload_count_add(own + break_reasons(labels), continue_reasons(labels));
}

/// The taxonomy is closed: whatever reason the relay closure hands out, a
/// variant of the taxonomy stands for it.
pub proof fn law_reasons_closed<T>(spec: LoopSpec, leave: Leave<T>, default: T, reason: Reason<T>)
    requires
        relayed(spec, leave, default) == Ok::<ControlFlow<Reason<T>, T>, Fault>(
            ControlFlow::Break(reason),
        ),
    ensures
        exists|i: int|
            0 <= i < taxonomy(spec.escape_labels).len() && stands_for(
                #[trigger] taxonomy(spec.escape_labels)[i],
                reason,
            ),
{
    let labels = spec.escape_labels;
    let t = taxonomy(labels);
    let at = lemma_continue_reasons(labels);
    match leave {
        Leave::Complete(_) => {},
        Leave::Suspend => {},
        Leave::Return(_) => {
            assert(stands_for(t[0], reason));
        },
        Leave::Break { label, value } => {
            if reason is EarlyBreak {
                assert(stands_for(t[1], reason));
            } else {
                let k = first_named(labels, label->0, 0);
                lemma_first_named(labels, label->0, 0);
                assert(t[2 + k] == Variant::BreakTo(labels[k].label));
                assert(stands_for(t[2 + k], reason));
            }
        },
        Leave::Continue { label } => {
            let k = first_named(labels, label->0, 0);
            lemma_first_named(labels, label->0, 0);
            assert(labels[k].accepts_continue);
            let j = choose|j: int| 0 <= j < at.len() && #[trigger] at[j] == k;
            assert(t[2 + labels.len() + j] == continue_reasons(labels)[j]);
            assert(stands_for(t[2 + labels.len() + j], reason));
        },
    }
}

/// A text is found again behind any prefix.
pub proof fn lemma_prefix_cancels(prefix: Seq<char>, a: Seq<char>, b: Seq<char>)
    requires
        prefix + a == prefix + b,
    ensures
        a == b,
{
    assert(a =~= (prefix + a).subrange(prefix.len() as int, (prefix + a).len() as int));
    assert(b =~= (prefix + b).subrange(prefix.len() as int, (prefix + b).len() as int));
}

/// The text of the name of a variant.
pub open spec fn variant_text(v: Variant) -> Seq<char> {
    variant_name(v)->name
}

/// The names of two variants are the same text only where the variants are
/// of the same kind and, if they have labels, the labels have the same name.
pub proof fn lemma_variant_text(a: Variant, b: Variant)
    requires
        variant_text(a) == variant_text(b),
    ensures
        a is EarlyReturn <==> b is EarlyReturn,
        a is EarlyBreak <==> b is EarlyBreak,
        a is BreakTo <==> b is BreakTo,
        a is ContinueTo <==> b is ContinueTo,
        a is BreakTo || a is ContinueTo ==> label_of(a).name == label_of(b).name,
{
    reveal_strlit("EarlyReturn");
    reveal_strlit("EarlyBreak");
    reveal_strlit("EarlyBreakTo_");
    reveal_strlit("EarlyContinueTo_");
    let ta = variant_text(a);
    let tb = variant_text(b);
    assert(ta.len() == tb.len());
    assert(ta[5] == tb[5]);
    assert(ta[6] == tb[6]);
    match (a, b) {
        (Variant::BreakTo(x), Variant::BreakTo(y)) => {
            lemma_prefix_cancels("EarlyBreakTo_"@, x.name, y.name);
        },
        (Variant::ContinueTo(x), Variant::ContinueTo(y)) => {
            lemma_prefix_cancels("EarlyContinueTo_"@, x.name, y.name);
        },
        _ => {},
    }
}

/// The variants have names of their own. Where no two labels of the break
/// clause have the same name, no two variants of the taxonomy have.
pub proof fn law_variant_names_distinct(labels: Seq<ExternalLabel>)
    requires
        distinct(labels),
    ensures
        forall|i: int, j: int|
            0 <= i < j < taxonomy(labels).len() ==> variant_text(#[trigger] taxonomy(labels)[i])
                != variant_text(#[trigger] taxonomy(labels)[j]),
{
    let t = taxonomy(labels);
    let n = labels.len() as int;
    let at = lemma_continue_reasons(labels);
    assert forall|i: int, j: int| 0 <= i < j < t.len() implies variant_text(#[trigger] t[i])
        != variant_text(#[trigger] t[j]) by {
        if variant_text(t[i]) == variant_text(t[j]) {
            lemma_variant_text(t[i], t[j]);
            if 2 <= i && j < 2 + n {
                assert(t[i] == Variant::BreakTo(labels[i - 2].label));
                assert(t[j] == Variant::BreakTo(labels[j - 2].label));
            } else if 2 + n <= i {
                assert(t[i] == continue_reasons(labels)[i - 2 - n]);
                assert(t[j] == continue_reasons(labels)[j - 2 - n]);
                assert(at[i - 2 - n] < at[j - 2 - n]);
            } else if 2 <= i {
                assert(t[i] == Variant::BreakTo(labels[i - 2].label));
                assert(t[j] == continue_reasons(labels)[j - 2 - n]);
                assert(0 <= at[j - 2 - n] < n);
            } else if j >= 2 + n {
                assert(t[j] == continue_reasons(labels)[j - 2 - n]);
                assert(0 <= at[j - 2 - n] < n);
            } else if j >= 2 {
                assert(t[j] == Variant::BreakTo(labels[j - 2].label));
            }
        }
    }
}

/// The labels of the absorbers are fresh. The absorbers of two labels with
/// different names have different labels, none of them has the label of the
/// innermost absorber, and no label that the user wrote is one of them.
pub proof fn law_absorber_labels_fresh(a: Label, b: Label, written: Label)
    requires
        written.origin != Origin::MixedSite,
    ensures
        a.name != b.name ==> absorber_label(a) != absorber_label(b),
        absorber_label(a) != innermost_label(),
        absorber_label(a) != user_label(written),
        innermost_label() != user_label(written),
{
    reveal_strlit("__cbit_internal_absorber_magic_for_");
    reveal_strlit("__cbit_internal_absorber_magic_innermost");
    let prefix = "__cbit_internal_absorber_magic_for_"@;
    if absorber_label(a) == absorber_label(b) {
        assert(absorber_label(a)[1] == absorber_label(b)[1]);
        lemma_prefix_cancels(prefix, a.name, b.name);
    }
    if absorber_label(a) == innermost_label() {
        assert(absorber_label(a)[1] == innermost_label()[1]);
        assert((prefix + a.name)[31] == 'f');
        assert("__cbit_internal_absorber_magic_innermost"@[31] == 'i');
    }
    assert(absorber_label(a)[1]->Ident_origin == Origin::MixedSite);
    assert(innermost_label()[1]->Ident_origin == Origin::MixedSite);
    assert(user_label(written)[1]->Ident_origin == written.origin);
}

/// The absorbers nest in the order of declaration: the absorber of the label
/// declared last stands around those of all the labels before it, which
/// stand around the innermost one.
pub proof fn law_layers_nest_in_order(
    labels: Seq<ExternalLabel>,
    last: ExternalLabel,
    core: Seq<Tok>,
)
    ensures
        layered(Seq::empty(), core) == core,
        layered(labels.push(last), core) == absorber(last, layered(labels, core)),
{
    assert(labels.push(last).drop_last() =~= labels);
}

/// The expansion is one block: the type of the reasons, the labels of the
/// absorbers and every name of the expansion are declared inside it, so that
/// two expansions side by side share none of them.
pub proof fn law_expansion_is_one_block(spec: LoopSpec)
    ensures
        expansion(spec).len() == 1,
        is_group(expansion(spec)[0], Delimiter::Brace),
{
}

/// One type for each value. The type of the reasons has one type parameter
/// for each reason that carries a value, and the expansion leaves as many
/// types to inference: both lists hold that many entries and the commas
/// between them.
pub proof fn law_one_type_for_each_value(t: Seq<Variant>)
    ensures
        payload_count(t) > 0 ==> type_params(t).len() == 2 * payload_count(t) - 1,
        payload_count(t) == 0 ==> type_params(t).len() == 0,
        placeholders(t).len() == type_params(t).len(),
    decreases t.len(),
{
    if t.len() > 0 {
        law_one_type_for_each_value(t.drop_last());
    }
}

/// What is accepted. A loop is read only from tokens whose pattern is a
/// pattern and whose call is a function call or a method call; it then keeps
/// the pattern as it stands, which holds no `in` of its own, the call in the
/// shape found, and as its body what the last token holds in curly braces.
pub proof fn law_accepted_loops(s: Seq<Tok>, pattern_ok: bool, shape: CallShape)
    requires
        parsed_loop(s, pattern_ok, shape) is Ok,
    ensures
        pattern_ok,
        shape == CallShape::Function || shape == CallShape::Method,
        shape == CallShape::Function <==> parsed_loop(s, pattern_ok, shape)->Ok_0.source_call
            is FreeCall,
        parsed_loop(s, pattern_ok, shape)->Ok_0.binding == pattern_tokens(s),
        forall|j: int|
            0 <= j < pattern_tokens(s).len() ==> !is_ident(#[trigger] pattern_tokens(s)[j], "in"@),
        s.len() > 0 && is_group(s.last(), Delimiter::Brace),
        parsed_loop(s, pattern_ok, shape)->Ok_0.body == s.last()->inner,
{
    let h = header(s)->Ok_0;
    lemma_first_ident(s, h.pattern_from, "in"@);
}

/// The parts of a call are all of the call. Put together again in their
/// order, with the `.` before the name of a method, they are the tokens of
/// the call up to the argument list, which is the last token and holds the
/// arguments.
pub proof fn law_call_parts_rejoin(c: Seq<Tok>, shape: CallShape)
    requires
        source_call(c, shape) is Ok,
    ensures
        c.len() > 0 && is_group(c.last(), Delimiter::Parenthesis),
        match source_call(c, shape)->Ok_0 {
            SourceCall::FreeCall { attrs, callee, args } => {
                &&& c.drop_last() == attrs + callee
                &&& callee.len() > 0
                &&& args == c.last()->inner
            },
            SourceCall::MethodCall { attrs, receiver, method, type_args, args } => {
                &&& c.drop_last() == attrs + receiver + seq![
                    c[(attrs.len() + receiver.len()) as int],
                    method,
                ] + type_args
                &&& is_punct(c[(attrs.len() + receiver.len()) as int], '.')
                &&& receiver.len() > 0
                &&& method is Ident
                &&& args == c.last()->inner
            },
        },
{
    let end = c.len() - 1;
    lemma_attr_prefix(c, 0);
    if end >= 0 {
        lemma_last_dot(c, end);
    }
    match source_call(c, shape)->Ok_0 {
        SourceCall::FreeCall { attrs, callee, args } => {
            assert(c.drop_last() =~= attrs + callee);
        },
        SourceCall::MethodCall { attrs, receiver, method, type_args, args } => {
            let dot = last_dot(c, end);
            assert(attrs.len() + receiver.len() == dot);
            assert(c.drop_last() =~= attrs + receiver + seq![c[dot], method] + type_args);
        },
    }
}

/// The callback is the last argument. The arguments of the call stand before
/// it as they were written, and nothing stands behind it.
pub proof fn law_callback_is_last_argument(args: Seq<Tok>, callback: Seq<Tok>)
    ensures
        with_callback(args, callback).len() >= args.len() + callback.len(),
        with_callback(args, callback).subrange(0, args.len() as int) == args,
        with_callback(args, callback).subrange(
            with_callback(args, callback).len() - callback.len(),
            with_callback(args, callback).len() as int,
        ) == callback,
        args.len() > 0 ==> is_punct(
            with_callback(args, callback)[with_callback(args, callback).len() - callback.len() - 1],
            ',',
        ),
{
    let all = with_callback(args, callback);
    assert(all.subrange(0, args.len() as int) =~= args);
    assert(all.subrange(all.len() - callback.len(), all.len() as int) =~= callback);
}

} // verus!
