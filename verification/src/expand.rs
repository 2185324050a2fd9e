//! The expansion of a loop: a call of the iterating function with a relay
//! closure as its last argument, and a dispatcher on what the call returns.
//!
//! The body runs inside the closure, wrapped in one absorber for the loop
//! itself and one for each label of the break clause. An absorber turns a
//! jump to its label into a recorded reason and one suspension that never
//! resumes. The closure polls the wrapped body once and hands the recorded
//! reason back to the iterating function, which ends early with it; the
//! dispatcher then performs the jump for real.
//!
//! For `for x in walk(tree) break 'out { body }` the expansion has this shape:
//!
//! ```text
//! {
//!     enum Reasons<EarlyReturn, EarlyBreak, EarlyBreakTo_out> { .. }
//!     type Flow<..> = ControlFlow<Reasons<..>, EarlyBreak>;
//!     let result: Flow<_, _, _> = walk(tree, |element| {
//!         let mut element = Some(element);
//!         let mut resolution = None;
//!         let unit = pin!(async {
//!             let end = {
//!                 'absorber_for_out: {
//!                     let left = 'out: {
//!                         let left = {
//!                             'innermost: {
//!                                 let mut did_run = false;
//!                                 let left = loop {
//!                                     if did_run { break 'innermost Default::default(); }
//!                                     did_run = true;
//!                                     let x = element.take().unwrap();
//!                                     let left = { body };
//!                                     break 'innermost left;
//!                                 };
//!                                 { abort with EarlyBreak(left) }
//!                             }
//!                         };
//!                         break 'absorber_for_out left;
//!                     };
//!                     { abort with EarlyBreakTo_out(left) }
//!                 }
//!             };
//!             { abort with Continue(end) }
//!         });
//!         match poll(unit) {
//!             Ready(value) => Break(EarlyReturn(value)),
//!             Pending => resolution.expect(..),
//!         }
//!     });
//!     match result {
//!         Break(EarlyReturn(value)) => return value,
//!         Break(EarlyBreak(value)) => value,
//!         Break(EarlyBreakTo_out(value)) => break 'out value,
//!         Continue(value) => value,
//!     }
//! }
//! ```
//!
//! where an abort is `resolution = Some(..); pending().await; unreachable!()`.

use crate::syntax::{
    external_labels, AnyCallExpr, CbitForExpr, CbitForExprSingleBreak, ExternalLabel, Label,
    Lifetime, LoopSpec, SourceCall,
};
use crate::taxonomy::{
    absorber_label, build_taxonomy, carries_value, innermost_label, push_absorber_label, taxonomy,
    variant_name, variants, EscapeVariant, Variant,
};
use crate::token::{
    extend_with, glued, group, ident, is_punct, lifetime, literal, punct, push_all, push_glued,
    push_group, push_ident, push_lifetime, push_literal, push_punct, push_token, toks, Delimiter,
    Origin, Tok, Token,
};
use vstd::prelude::*;
use vstd::string::StringExecFns;

verus! {

/// The flag that tells whether the one pass over the body has begun.
pub const DID_RUN: &'static str = "__cbit_internal_did_run";

/// The slot that holds the element until the pattern binds it.
pub const BODY_INPUT: &'static str = "__cbit_internal_body_input";

/// The slot that holds the recorded reason while the body is suspended.
pub const RESOLUTION: &'static str = "__cbit_internal_how_to_resolve_pending";

/// The value with which a block was left.
pub const BREAK_RESULT: &'static str = "__cbit_internal_break_result";

/// The wrapped body, ready to be polled.
pub const BODY: &'static str = "__cbit_internal_body";

/// The value with which the body ran to its end.
pub const END_RESULT: &'static str = "__cbit_internal_end_result";

/// What the iterating function returned.
pub const RESULT: &'static str = "__cbit_internal_result";

/// The type of the reasons: one variant for each reason of the taxonomy.
pub const REASONS: &'static str = "__CbitInternalOurControlFlowResult";

/// The two-state result that the callback and the iterating function share.
pub const CONTROL_FLOW: &'static str = "__CbitInternalOurControlFlow";

/// The name of the innermost absorber's label.
pub const INNERMOST: &'static str = "__cbit_internal_absorber_magic_innermost";

/// What the closure says when the body suspends without a recorded reason.
pub const MISUSE: &'static str =
    "\"the async block in a cbit iterator is an implementation detail; do not `.await` in it!\"";

/// A word of the host language, or a name that the body may see.
pub open spec fn word(name: Seq<char>) -> Tok {
    ident(name, Origin::CallSite)
}

/// A name of the expansion's own, which the body cannot see.
pub open spec fn hidden(name: Seq<char>) -> Tok {
    ident(name, Origin::MixedSite)
}

/// `()`
pub open spec fn unit() -> Tok {
    group(Delimiter::Parenthesis, Seq::empty())
}

/// `=>`
pub open spec fn arrow() -> Seq<Tok> {
    seq![glued('='), punct('>')]
}

/// `::name`
pub open spec fn segment(name: Seq<char>) -> Seq<Tok> {
    seq![glued(':'), punct(':'), word(name)]
}

/// `::core::a`
pub open spec fn core1(a: Seq<char>) -> Seq<Tok> {
    segment("core"@) + segment(a)
}

/// `::core::a::b`
pub open spec fn core2(a: Seq<char>, b: Seq<char>) -> Seq<Tok> {
    segment("core"@) + segment(a) + segment(b)
}

/// `::core::a::b::c`
pub open spec fn core3(a: Seq<char>, b: Seq<char>, c: Seq<char>) -> Seq<Tok> {
    segment("core"@) + segment(a) + segment(b) + segment(c)
}

/// `#[allow(lint)]`
pub open spec fn allow(lint: Seq<Tok>) -> Seq<Tok> {
    seq![
        punct('#'),
        group(Delimiter::Bracket, seq![word("allow"@), group(Delimiter::Parenthesis, lint)]),
    ]
}

/// `#[allow(unreachable_code)]`
pub open spec fn allow_unreachable() -> Seq<Tok> {
    allow(seq![word("unreachable_code"@)])
}

/// The variant `name` of the type of the reasons.
pub open spec fn reason(name: Tok) -> Seq<Tok> {
    seq![hidden(REASONS@), glued(':'), punct(':'), name]
}

/// A label as the user wrote it.
pub open spec fn user_label(l: Label) -> Seq<Tok> {
    lifetime(l.name, l.origin)
}

/// The abort: records `resolution` in the shared slot, suspends once, and
/// never goes on.
pub open spec fn abort(resolution: Seq<Tok>) -> Seq<Tok> {
    seq![hidden(RESOLUTION@), punct('=')] + core3("option"@, "Option"@, "Some"@) + seq![
        group(Delimiter::Parenthesis, resolution),
        punct(';'),
    ] + core2("future"@, "pending"@) + seq![
        glued(':'),
        punct(':'),
        punct('<'),
        unit(),
        punct('>'),
        unit(),
        punct('.'),
        word("await"@),
        punct(';'),
    ] + core1("unreachable"@) + seq![punct('!'), unit(), punct(';')]
}

/// The abort with the reason `name`, which carries the value with which
/// the block was left.
pub open spec fn abort_with_value(name: Tok) -> Seq<Tok> {
    abort(
        core3("ops"@, "ControlFlow"@, "Break"@) + seq![
            group(
                Delimiter::Parenthesis,
                reason(name) + seq![group(Delimiter::Parenthesis, seq![hidden(BREAK_RESULT@)])],
            ),
        ],
    )
}

/// The abort with the reason `name`, which carries nothing.
pub open spec fn abort_without_value(name: Tok) -> Seq<Tok> {
    abort(
        core3("ops"@, "ControlFlow"@, "Break"@) + seq![
            group(Delimiter::Parenthesis, reason(name)),
        ],
    )
}

/// The end of every absorber, reached only by a break to the guarded label:
/// the abort with the reason `name`.
pub open spec fn on_break(name: Tok) -> Seq<Tok> {
    allow_unreachable() + seq![group(Delimiter::Brace, abort_with_value(name))]
}

/// The end of the one pass: leaves the absorber `exit` with the value of
/// what ran inside.
pub open spec fn leave(exit: Seq<Tok>) -> Seq<Tok> {
    allow_unreachable() + seq![word("break"@)] + exit + seq![hidden(BREAK_RESULT@), punct(';')]
}

/// The one pass of the innermost absorber: binds the element, runs the body,
/// and leaves with the body's value. Entered a second time, which only a
/// `continue` does, it leaves with the default value at once.
pub open spec fn innermost_pass(binding: Seq<Tok>, body: Seq<Tok>) -> Seq<Tok> {
    seq![
        word("if"@),
        hidden(DID_RUN@),
        group(
            Delimiter::Brace,
            seq![word("break"@)] + innermost_label() + core3(
                "default"@,
                "Default"@,
                "default"@,
            ) + seq![unit(), punct(';')],
        ),
        hidden(DID_RUN@),
        punct('='),
        word("true"@),
        punct(';'),
        word("let"@),
    ] + binding + seq![
        punct('='),
        hidden(BODY_INPUT@),
        punct('.'),
        word("take"@),
        unit(),
        punct('.'),
        word("unwrap"@),
        unit(),
        punct(';'),
        word("let"@),
        hidden(BREAK_RESULT@),
        punct('='),
        group(Delimiter::Brace, body),
        punct(';'),
    ] + leave(innermost_label())
}

/// `let mut <flag> = false; let <value> =`
pub open spec fn pass_start() -> Seq<Tok> {
    seq![
        word("let"@),
        word("mut"@),
        hidden(DID_RUN@),
        punct('='),
        word("false"@),
        punct(';'),
        word("let"@),
        hidden(BREAK_RESULT@),
        punct('='),
    ]
}

/// The loop's own label with its colon, where the loop has one.
pub open spec fn label_prefix(l: Option<Label>) -> Seq<Tok> {
    match l {
        Some(l) => user_label(l) + seq![punct(':')],
        None => seq![],
    }
}

/// The innermost absorber, which guards the loop itself: a `break` in the
/// body aborts with the value as an early break.
pub open spec fn innermost(spec: LoopSpec) -> Seq<Tok> {
    innermost_label() + seq![
        punct(':'),
        group(
            Delimiter::Brace,
            pass_start() + label_prefix(spec.loop_label) + seq![
                word("loop"@),
                group(Delimiter::Brace, innermost_pass(spec.binding, spec.body)),
                punct(';'),
            ] + on_break(variant_name(Variant::EarlyBreak)),
        ),
    ]
}

/// The one pass of the absorber of a label that accepts `continue`: entered a
/// second time, it aborts with the reason to continue there.
pub open spec fn loop_pass(l: Label, inner: Seq<Tok>) -> Seq<Tok> {
    seq![
        word("if"@),
        hidden(DID_RUN@),
        group(Delimiter::Brace, abort_without_value(variant_name(Variant::ContinueTo(l)))),
        hidden(DID_RUN@),
        punct('='),
        word("true"@),
        punct(';'),
    ] + block_pass(l, inner)
}

/// The one pass of the absorber of a label: runs what is inside and leaves
/// with its value.
pub open spec fn block_pass(l: Label, inner: Seq<Tok>) -> Seq<Tok> {
    seq![
        word("let"@),
        hidden(BREAK_RESULT@),
        punct('='),
        group(Delimiter::Brace, inner),
        punct(';'),
    ] + leave(absorber_label(l))
}

/// The absorber of one label of the break clause, around `inner`: a `break`
/// to the label aborts with the value, and so does a `continue` where the
/// label accepts it.
pub open spec fn absorber(entry: ExternalLabel, inner: Seq<Tok>) -> Seq<Tok> {
    let l = entry.label;
    absorber_label(l) + seq![
        punct(':'),
        group(
            Delimiter::Brace,
            if entry.accepts_continue {
                pass_start() + user_label(l) + seq![
                    punct(':'),
                    word("loop"@),
                    group(Delimiter::Brace, loop_pass(l, inner)),
                    punct(';'),
                ] + on_break(variant_name(Variant::BreakTo(l)))
            } else {
                seq![word("let"@), hidden(BREAK_RESULT@), punct('=')] + user_label(l) + seq![
                    punct(':'),
                    group(Delimiter::Brace, block_pass(l, inner)),
                    punct(';'),
                ] + on_break(variant_name(Variant::BreakTo(l)))
            },
        ),
    ]
}

/// `core` inside the absorbers of `labels`: the first declared is the
/// innermost, the last declared the outermost.
pub open spec fn layered(labels: Seq<ExternalLabel>, core: Seq<Tok>) -> Seq<Tok>
    decreases labels.len(),
{
    if labels.len() == 0 {
        core
    } else {
        absorber(labels.last(), layered(labels.drop_last(), core))
    }
}

/// `rest`, a comma where `rest` is not empty, and `item`.
pub open spec fn separated(rest: Seq<Tok>, item: Seq<Tok>) -> Seq<Tok> {
    if rest.len() == 0 {
        item
    } else {
        rest + seq![punct(',')] + item
    }
}

/// The type parameters of the type of the reasons: the name of each reason
/// that carries a value, with commas between.
pub open spec fn type_params(t: Seq<Variant>) -> Seq<Tok>
    decreases t.len(),
{
    if t.len() == 0 {
        seq![]
    } else if carries_value(t.last()) {
        separated(type_params(t.drop_last()), seq![variant_name(t.last())])
    } else {
        type_params(t.drop_last())
    }
}

/// One `_` for each reason that carries a value, with commas between: the
/// types are left to inference.
pub open spec fn placeholders(t: Seq<Variant>) -> Seq<Tok>
    decreases t.len(),
{
    if t.len() == 0 {
        seq![]
    } else if carries_value(t.last()) {
        separated(placeholders(t.drop_last()), seq![word("_"@)])
    } else {
        placeholders(t.drop_last())
    }
}

/// The variant that stands for one reason, with its comma: it holds a value
/// of the type parameter of its own name, or nothing.
pub open spec fn enum_variant(v: Variant) -> Seq<Tok> {
    if carries_value(v) {
        seq![
            variant_name(v),
            group(Delimiter::Parenthesis, seq![variant_name(v)]),
            punct(','),
        ]
    } else {
        seq![variant_name(v), punct(',')]
    }
}

/// The variants of the type of the reasons.
pub open spec fn enum_variants(t: Seq<Variant>) -> Seq<Tok>
    decreases t.len(),
{
    if t.len() == 0 {
        seq![]
    } else {
        enum_variants(t.drop_last()) + enum_variant(t.last())
    }
}

/// `#[allow(non_camel_case_types)]`
pub open spec fn allow_names() -> Seq<Tok> {
    allow(seq![word("non_camel_case_types"@)])
}

/// The declaration of the type of the reasons.
pub open spec fn enum_def(t: Seq<Variant>) -> Seq<Tok> {
    allow_names() + allow(
        seq![word("clippy"@), glued(':'), punct(':'), word("enum_variant_names"@)],
    ) + seq![word("enum"@), hidden(REASONS@), punct('<')] + type_params(t) + seq![
        punct('>'),
        group(Delimiter::Brace, enum_variants(t)),
    ]
}

/// The declaration of the two-state result: it breaks with a reason and
/// continues with a value of the type of an early break.
pub open spec fn type_decl(t: Seq<Variant>) -> Seq<Tok> {
    allow_names() + seq![word("type"@), hidden(CONTROL_FLOW@), punct('<')] + type_params(t) + seq![
        punct('>'),
        punct('='),
    ] + core2("ops"@, "ControlFlow"@) + seq![punct('<'), hidden(REASONS@), punct('<')]
        + type_params(t) + seq![
        punct('>'),
        punct(','),
        variant_name(Variant::EarlyBreak),
        punct(','),
        punct('>'),
        punct(';'),
    ]
}

/// The two-state result with all its types left to inference.
pub open spec fn type_use(t: Seq<Variant>) -> Seq<Tok> {
    seq![hidden(CONTROL_FLOW@), punct('<')] + placeholders(t) + seq![punct('>')]
}

/// The relay closure, the callback of the iterating function. It keeps the
/// element, runs the layered body as one unit through a single poll, and
/// reports: a finished unit is an early return with the unit's value; a
/// suspended one left its resolution in the shared slot.
pub open spec fn relay_closure(layers: Seq<Tok>) -> Seq<Tok> {
    seq![
        punct('|'),
        hidden(BODY_INPUT@),
        punct('|'),
        group(Delimiter::Brace, keep_element() + wrapped_body(layers) + single_poll()),
    ]
}

/// `let mut <element> = Some(<element>); let mut <resolution> = None;`
pub open spec fn keep_element() -> Seq<Tok> {
    seq![word("let"@), word("mut"@), hidden(BODY_INPUT@), punct('=')] + core3(
        "option"@,
        "Option"@,
        "Some"@,
    ) + seq![
        group(Delimiter::Parenthesis, seq![hidden(BODY_INPUT@)]),
        punct(';'),
        word("let"@),
        word("mut"@),
        hidden(RESOLUTION@),
        punct('='),
    ] + core3("option"@, "Option"@, "None"@) + seq![punct(';')]
}

/// The layered body as one pinned unit. Run to its end, it aborts too: with
/// the resolution to go on with the body's value.
pub open spec fn wrapped_body(layers: Seq<Tok>) -> Seq<Tok> {
    seq![word("let"@), hidden(BODY@), punct('=')] + core2("pin"@, "pin"@) + seq![
        punct('!'),
        group(
            Delimiter::Parenthesis,
            seq![
                word("async"@),
                group(
                    Delimiter::Brace,
                    seq![
                        word("let"@),
                        hidden(END_RESULT@),
                        punct('='),
                        group(Delimiter::Brace, layers),
                        punct(';'),
                    ] + allow_unreachable() + seq![
                        group(
                            Delimiter::Brace,
                            abort(
                                core3("ops"@, "ControlFlow"@, "Continue"@) + seq![
                                    group(Delimiter::Parenthesis, seq![hidden(END_RESULT@)]),
                                ],
                            ),
                        ),
                    ],
                ),
            ],
        ),
        punct(';'),
    ]
}

/// The single poll of the unit and what the closure answers.
pub open spec fn single_poll() -> Seq<Tok> {
    seq![word("match"@)] + core3("future"@, "Future"@, "poll"@) + seq![
        group(
            Delimiter::Parenthesis,
            seq![hidden(BODY@), punct(','), punct('&'), word("mut"@)] + core3(
                "task"@,
                "Context"@,
                "from_waker"@,
            ) + seq![
                group(
                    Delimiter::Parenthesis,
                    seq![punct('&')] + core3("task"@, "Waker"@, "noop"@) + seq![unit()],
                ),
            ],
        ),
        group(Delimiter::Brace, when_ready() + when_pending()),
    ]
}

/// The unit finished: the body returned early, with the unit's value.
pub open spec fn when_ready() -> Seq<Tok> {
    core3("task"@, "Poll"@, "Ready"@) + seq![
        group(Delimiter::Parenthesis, seq![word("early_return"@)]),
    ] + arrow() + core3("ops"@, "ControlFlow"@, "Break"@) + seq![
        group(
            Delimiter::Parenthesis,
            reason(variant_name(Variant::EarlyReturn)) + seq![
                group(Delimiter::Parenthesis, seq![word("early_return"@)]),
                punct(','),
            ],
        ),
        punct(','),
    ]
}

/// The unit is suspended: the resolution is in the shared slot; an empty slot
/// means that the body suspended by itself, which is reported.
pub open spec fn when_pending() -> Seq<Tok> {
    core3("task"@, "Poll"@, "Pending"@) + arrow() + seq![
        hidden(RESOLUTION@),
        punct('.'),
        word("expect"@),
        group(Delimiter::Parenthesis, seq![literal(MISUSE@)]),
        punct(','),
    ]
}

/// The arguments of the call with the callback behind them: a comma parts
/// the callback from the argument before it.
pub open spec fn with_callback(args: Seq<Tok>, callback: Seq<Tok>) -> Seq<Tok> {
    if args.len() == 0 || is_punct(args.last(), ',') {
        args + callback
    } else {
        args + seq![punct(',')] + callback
    }
}

/// The call with the callback as its last argument, bound to the result. The
/// attributes of the call now stand on the binding.
pub open spec fn call_site(call: SourceCall, t: Seq<Variant>, callback: Seq<Tok>) -> Seq<Tok> {
    match call {
        SourceCall::FreeCall { attrs, callee, args } => attrs + bind_result(t) + callee + seq![
            group(Delimiter::Parenthesis, with_callback(args, callback)),
            punct(';'),
        ],
        SourceCall::MethodCall { attrs, receiver, method, type_args, args } => attrs + bind_result(
            t,
        ) + receiver + seq![punct('.'), method] + type_args + seq![
            group(Delimiter::Parenthesis, with_callback(args, callback)),
            punct(';'),
        ],
    }
}

/// `let <result>: <two-state result> =`
pub open spec fn bind_result(t: Seq<Variant>) -> Seq<Tok> {
    seq![word("let"@), hidden(RESULT@), punct(':')] + type_use(t) + seq![punct('=')]
}

/// The arm of the dispatcher for one reason: it performs the jump that the
/// reason stands for.
pub open spec fn dispatch_arm(v: Variant) -> Seq<Tok> {
    match v {
        Variant::EarlyReturn => reason(variant_name(v)) + seq![
            group(Delimiter::Parenthesis, seq![word("early_result"@)]),
        ] + arrow() + seq![word("return"@), word("early_result"@), punct(',')],
        Variant::EarlyBreak => reason(variant_name(v)) + seq![
            group(Delimiter::Parenthesis, seq![word("result"@)]),
        ] + arrow() + seq![word("result"@), punct(',')],
        Variant::BreakTo(l) => reason(variant_name(v)) + seq![
            group(Delimiter::Parenthesis, seq![word("break_out"@)]),
        ] + arrow() + seq![word("break"@)] + user_label(l) + seq![
            word("break_out"@),
            punct(','),
        ],
        Variant::ContinueTo(l) => reason(variant_name(v)) + arrow() + seq![word("continue"@)]
            + user_label(l) + seq![punct(',')],
    }
}

/// The arms of the dispatcher, one for each reason of the taxonomy.
pub open spec fn dispatch_arms(t: Seq<Variant>) -> Seq<Tok>
    decreases t.len(),
{
    if t.len() == 0 {
        seq![]
    } else {
        dispatch_arms(t.drop_last()) + dispatch_arm(t.last())
    }
}

/// The dispatcher on the result of the call: a reason is replayed as its
/// jump; a result without a reason is the value of the loop.
pub open spec fn dispatcher(t: Seq<Variant>) -> Seq<Tok> {
    seq![
        word("match"@),
        hidden(RESULT@),
        group(
            Delimiter::Brace,
            core3("ops"@, "ControlFlow"@, "Break"@) + seq![
                group(Delimiter::Parenthesis, seq![word("result"@)]),
            ] + arrow() + seq![
                word("match"@),
                word("result"@),
                group(Delimiter::Brace, dispatch_arms(t)),
                punct(','),
            ] + core3("ops"@, "ControlFlow"@, "Continue"@) + seq![
                group(Delimiter::Parenthesis, seq![word("result"@)]),
            ] + arrow() + seq![word("result"@), punct(',')],
        ),
    ]
}

/// The expansion of a loop: one block that declares the type of the reasons
/// and the two-state result, makes the call, and dispatches on its result.
pub open spec fn expansion(spec: LoopSpec) -> Seq<Tok> {
    let t = taxonomy(spec.escape_labels);
    seq![
        group(
            Delimiter::Brace,
            enum_def(t) + type_decl(t) + call_site(
                spec.source_call,
                t,
                relay_closure(layered(spec.escape_labels, innermost(spec))),
            ) + dispatcher(t),
        ),
    ]
}

fn push_word(out: &mut Vec<Token>, name: &str)
    ensures
        toks(final(out)@) == toks(old(out)@).push(word(name@)),
{
    push_ident(out, name, Origin::CallSite);
}

fn push_hidden(out: &mut Vec<Token>, name: &str)
    ensures
        toks(final(out)@) == toks(old(out)@).push(hidden(name@)),
{
    push_ident(out, name, Origin::MixedSite);
}

fn push_unit(out: &mut Vec<Token>)
    ensures
        toks(final(out)@) == toks(old(out)@).push(unit()),
{
    let inner: Vec<Token> = Vec::new();
    assert(toks(inner@) =~= Seq::<Tok>::empty());
    push_group(out, Delimiter::Parenthesis, inner);
}

fn push_arrow(out: &mut Vec<Token>)
    ensures
        toks(final(out)@) == toks(old(out)@) + arrow(),
{
    push_glued(out, '=');
    push_punct(out, '>');
}

fn push_segment(out: &mut Vec<Token>, name: &str)
    ensures
        toks(final(out)@) == toks(old(out)@) + segment(name@),
{
    push_glued(out, ':');
    push_punct(out, ':');
    push_word(out, name);
}

fn push_core1(out: &mut Vec<Token>, a: &str)
    ensures
        toks(final(out)@) == toks(old(out)@) + core1(a@),
{
    push_segment(out, "core");
    push_segment(out, a);
}

fn push_core2(out: &mut Vec<Token>, a: &str, b: &str)
    ensures
        toks(final(out)@) == toks(old(out)@) + core2(a@, b@),
{
    push_segment(out, "core");
    push_segment(out, a);
    push_segment(out, b);
}

fn push_core3(out: &mut Vec<Token>, a: &str, b: &str, c: &str)
    ensures
        toks(final(out)@) == toks(old(out)@) + core3(a@, b@, c@),
{
    push_segment(out, "core");
    push_segment(out, a);
    push_segment(out, b);
    push_segment(out, c);
}

fn push_allow(out: &mut Vec<Token>, lint: Vec<Token>)
    ensures
        toks(final(out)@) == toks(old(out)@) + allow(toks(lint@)),
{
    let mut inner: Vec<Token> = Vec::new();
    push_word(&mut inner, "allow");
    push_group(&mut inner, Delimiter::Parenthesis, lint);
    assert(toks(inner@) =~= seq![
        word("allow"@),
        group(Delimiter::Parenthesis, toks(lint@)),
    ]);
    push_punct(out, '#');
    push_group(out, Delimiter::Bracket, inner);
}

fn push_allow_unreachable(out: &mut Vec<Token>)
    ensures
        toks(final(out)@) == toks(old(out)@) + allow_unreachable(),
{
    let mut lint: Vec<Token> = Vec::new();
    push_word(&mut lint, "unreachable_code");
    assert(toks(lint@) =~= seq![word("unreachable_code"@)]);
    push_allow(out, lint);
}

fn push_reason(out: &mut Vec<Token>, name: Token)
    ensures
        toks(final(out)@) == toks(old(out)@) + reason(name@),
{
    push_hidden(out, REASONS);
    push_glued(out, ':');
    push_punct(out, ':');
    push_token(out, name);
}

fn push_user_label(out: &mut Vec<Token>, label: &Lifetime)
    ensures
        toks(final(out)@) == toks(old(out)@) + user_label(label@),
{
    push_lifetime(out, label.name.as_str(), label.origin);
}

fn push_innermost_label(out: &mut Vec<Token>)
    ensures
        toks(final(out)@) == toks(old(out)@) + innermost_label(),
{
    push_lifetime(out, INNERMOST, Origin::MixedSite);
}

fn emit_abort(resolution: Vec<Token>) -> (out: Vec<Token>)
    ensures
        toks(out@) == abort(toks(resolution@)),
{
    let mut out: Vec<Token> = Vec::new();
    push_hidden(&mut out, RESOLUTION);
    push_punct(&mut out, '=');
    push_core3(&mut out, "option", "Option", "Some");
    push_group(&mut out, Delimiter::Parenthesis, resolution);
    push_punct(&mut out, ';');
    push_core2(&mut out, "future", "pending");
    push_glued(&mut out, ':');
    push_punct(&mut out, ':');
    push_punct(&mut out, '<');
    push_unit(&mut out);
    push_punct(&mut out, '>');
    push_unit(&mut out);
    push_punct(&mut out, '.');
    push_word(&mut out, "await");
    push_punct(&mut out, ';');
    push_core1(&mut out, "unreachable");
    push_punct(&mut out, '!');
    push_unit(&mut out);
    push_punct(&mut out, ';');
    out
}

fn emit_abort_with_value(name: Token) -> (out: Vec<Token>)
    ensures
        toks(out@) == abort_with_value(name@),
{
    let mut value: Vec<Token> = Vec::new();
    push_hidden(&mut value, BREAK_RESULT);
    assert(toks(value@) =~= seq![hidden(BREAK_RESULT@)]);
    let mut carried: Vec<Token> = Vec::new();
    push_reason(&mut carried, name);
    push_group(&mut carried, Delimiter::Parenthesis, value);
    assert(toks(carried@) =~= reason(name@) + seq![
        group(Delimiter::Parenthesis, seq![hidden(BREAK_RESULT@)]),
    ]);
    let mut resolution: Vec<Token> = Vec::new();
    push_core3(&mut resolution, "ops", "ControlFlow", "Break");
    push_group(&mut resolution, Delimiter::Parenthesis, carried);
    assert(toks(resolution@) =~= core3("ops"@, "ControlFlow"@, "Break"@) + seq![
        group(Delimiter::Parenthesis, toks(carried@)),
    ]);
    emit_abort(resolution)
}

fn emit_abort_without_value(name: Token) -> (out: Vec<Token>)
    ensures
        toks(out@) == abort_without_value(name@),
{
    let mut carried: Vec<Token> = Vec::new();
    push_reason(&mut carried, name);
    let mut resolution: Vec<Token> = Vec::new();
    push_core3(&mut resolution, "ops", "ControlFlow", "Break");
    push_group(&mut resolution, Delimiter::Parenthesis, carried);
    assert(toks(resolution@) =~= core3("ops"@, "ControlFlow"@, "Break"@) + seq![
        group(Delimiter::Parenthesis, reason(name@)),
    ]);
    emit_abort(resolution)
}

fn push_on_break(out: &mut Vec<Token>, name: Token)
    ensures
        toks(final(out)@) == toks(old(out)@) + on_break(name@),
{
    push_allow_unreachable(out);
    push_group(out, Delimiter::Brace, emit_abort_with_value(name));
}

fn push_leave(out: &mut Vec<Token>, exit: Vec<Token>)
    ensures
        toks(final(out)@) == toks(old(out)@) + leave(toks(exit@)),
{
    push_allow_unreachable(out);
    push_word(out, "break");
    extend_with(out, exit);
    push_hidden(out, BREAK_RESULT);
    push_punct(out, ';');
}

fn push_pass_start(out: &mut Vec<Token>)
    ensures
        toks(final(out)@) == toks(old(out)@) + pass_start(),
{
    push_word(out, "let");
    push_word(out, "mut");
    push_hidden(out, DID_RUN);
    push_punct(out, '=');
    push_word(out, "false");
    push_punct(out, ';');
    push_word(out, "let");
    push_hidden(out, BREAK_RESULT);
    push_punct(out, '=');
}

fn emit_innermost_pass(binding: &Vec<Token>, body: &Vec<Token>) -> (out: Vec<Token>)
    ensures
        toks(out@) == innermost_pass(toks(binding@), toks(body@)),
{
    let mut again: Vec<Token> = Vec::new();
    push_word(&mut again, "break");
    push_innermost_label(&mut again);
    push_core3(&mut again, "default", "Default", "default");
    push_unit(&mut again);
    push_punct(&mut again, ';');
    assert(toks(again@) =~= seq![word("break"@)] + innermost_label() + core3(
        "default"@,
        "Default"@,
        "default"@,
    ) + seq![unit(), punct(';')]);
    let mut exit: Vec<Token> = Vec::new();
    push_innermost_label(&mut exit);
    let mut inside: Vec<Token> = Vec::new();
    push_all(&mut inside, body);

    let mut out: Vec<Token> = Vec::new();
    push_word(&mut out, "if");
    push_hidden(&mut out, DID_RUN);
    push_group(&mut out, Delimiter::Brace, again);
    push_hidden(&mut out, DID_RUN);
    push_punct(&mut out, '=');
    push_word(&mut out, "true");
    push_punct(&mut out, ';');
    push_word(&mut out, "let");
    push_all(&mut out, binding);
    push_punct(&mut out, '=');
    push_hidden(&mut out, BODY_INPUT);
    push_punct(&mut out, '.');
    push_word(&mut out, "take");
    push_unit(&mut out);
    push_punct(&mut out, '.');
    push_word(&mut out, "unwrap");
    push_unit(&mut out);
    push_punct(&mut out, ';');
    push_word(&mut out, "let");
    push_hidden(&mut out, BREAK_RESULT);
    push_punct(&mut out, '=');
    push_group(&mut out, Delimiter::Brace, inside);
    push_punct(&mut out, ';');
    push_leave(&mut out, exit);
    out
}

fn emit_innermost(spec: &CbitForExpr) -> (out: Vec<Token>)
    ensures
        toks(out@) == innermost(spec@),
{
    let mut block: Vec<Token> = Vec::new();
    push_pass_start(&mut block);
    if let Some(l) = &spec.label {
        push_user_label(&mut block, l);
        push_punct(&mut block, ':');
    }
    push_word(&mut block, "loop");
    push_group(
        &mut block,
        Delimiter::Brace,
        emit_innermost_pass(&spec.body_pattern, &spec.body.body),
    );
    push_punct(&mut block, ';');
    let ghost before = toks(block@);
    push_on_break(&mut block, EscapeVariant::EarlyBreak.name());
    proof {
        assert(before =~= pass_start() + label_prefix(spec@.loop_label) + seq![
            word("loop"@),
            group(Delimiter::Brace, innermost_pass(spec@.binding, spec@.body)),
            punct(';'),
        ]);
    }
    let mut out: Vec<Token> = Vec::new();
    push_innermost_label(&mut out);
    push_punct(&mut out, ':');
    push_group(&mut out, Delimiter::Brace, block);
    out
}

fn emit_block_pass(label: &Lifetime, inner: Vec<Token>) -> (out: Vec<Token>)
    ensures
        toks(out@) == block_pass(label@, toks(inner@)),
{
    let mut exit: Vec<Token> = Vec::new();
    push_absorber_label(&mut exit, label);
    let mut out: Vec<Token> = Vec::new();
    push_word(&mut out, "let");
    push_hidden(&mut out, BREAK_RESULT);
    push_punct(&mut out, '=');
    push_group(&mut out, Delimiter::Brace, inner);
    push_punct(&mut out, ';');
    push_leave(&mut out, exit);
    out
}

fn emit_loop_pass(label: &Lifetime, inner: Vec<Token>) -> (out: Vec<Token>)
    ensures
        toks(out@) == loop_pass(label@, toks(inner@)),
{
    let again = emit_abort_without_value(EscapeVariant::ContinueTo(label.clone()).name());
    let mut out: Vec<Token> = Vec::new();
    push_word(&mut out, "if");
    push_hidden(&mut out, DID_RUN);
    push_group(&mut out, Delimiter::Brace, again);
    push_hidden(&mut out, DID_RUN);
    push_punct(&mut out, '=');
    push_word(&mut out, "true");
    push_punct(&mut out, ';');
    extend_with(&mut out, emit_block_pass(label, inner));
    out
}

fn emit_absorber(entry: &CbitForExprSingleBreak, inner: Vec<Token>) -> (out: Vec<Token>)
    ensures
        toks(out@) == absorber(entry@, toks(inner@)),
{
    let ghost l = entry@.label;
    let ghost within = toks(inner@);
    let mut block: Vec<Token> = Vec::new();
    if entry.kw_loop {
        push_pass_start(&mut block);
        push_user_label(&mut block, &entry.lt);
        push_punct(&mut block, ':');
        push_word(&mut block, "loop");
        push_group(&mut block, Delimiter::Brace, emit_loop_pass(&entry.lt, inner));
        push_punct(&mut block, ';');
        assert(toks(block@) =~= pass_start() + user_label(l) + seq![
            punct(':'),
            word("loop"@),
            group(Delimiter::Brace, loop_pass(l, within)),
            punct(';'),
        ]);
    } else {
        push_word(&mut block, "let");
        push_hidden(&mut block, BREAK_RESULT);
        push_punct(&mut block, '=');
        push_user_label(&mut block, &entry.lt);
        push_punct(&mut block, ':');
        push_group(&mut block, Delimiter::Brace, emit_block_pass(&entry.lt, inner));
        push_punct(&mut block, ';');
        assert(toks(block@) =~= seq![word("let"@), hidden(BREAK_RESULT@), punct('=')] + user_label(
            l,
        ) + seq![punct(':'), group(Delimiter::Brace, block_pass(l, within)), punct(';')]);
    }
    push_on_break(&mut block, EscapeVariant::BreakTo(entry.lt.clone()).name());
    let mut out: Vec<Token> = Vec::new();
    push_absorber_label(&mut out, &entry.lt);
    push_punct(&mut out, ':');
    push_group(&mut out, Delimiter::Brace, block);
    out
}

fn emit_layered(entries: &Vec<CbitForExprSingleBreak>, core: Vec<Token>) -> (out: Vec<Token>)
    ensures
        toks(out@) == layered(external_labels(entries@), toks(core@)),
{
    let ghost labels = external_labels(entries@);
    let ghost start = toks(core@);
    let mut out = core;
    let mut i: usize = 0;
    while i < entries.len()
        invariant
            i <= entries.len(),
            labels == external_labels(entries@),
            toks(out@) == layered(labels.subrange(0, i as int), start),
        decreases entries.len() - i,
    {
        assert(labels.subrange(0, i + 1).drop_last() =~= labels.subrange(0, i as int));
        out = emit_absorber(&entries[i], out);
        i += 1;
    }
    assert(labels.subrange(0, labels.len() as int) =~= labels);
    out
}

fn push_separated(out: &mut Vec<Token>, item: Token)
    ensures
        toks(final(out)@) == separated(toks(old(out)@), seq![item@]),
{
    if out.len() > 0 {
        push_punct(out, ',');
    }
    push_token(out, item);
}

fn emit_type_params(t: &Vec<EscapeVariant>) -> (out: Vec<Token>)
    ensures
        toks(out@) == type_params(variants(t@)),
{
    let ghost all = variants(t@);
    let mut out: Vec<Token> = Vec::new();
    let mut i: usize = 0;
    while i < t.len()
        invariant
            i <= t.len(),
            all == variants(t@),
            toks(out@) == type_params(all.subrange(0, i as int)),
        decreases t.len() - i,
    {
        assert(all.subrange(0, i + 1).drop_last() =~= all.subrange(0, i as int));
        if t[i].carries_value() {
            push_separated(&mut out, t[i].name());
        }
        i += 1;
    }
    assert(all.subrange(0, all.len() as int) =~= all);
    out
}

fn emit_placeholders(t: &Vec<EscapeVariant>) -> (out: Vec<Token>)
    ensures
        toks(out@) == placeholders(variants(t@)),
{
    let ghost all = variants(t@);
    let mut out: Vec<Token> = Vec::new();
    let mut i: usize = 0;
    while i < t.len()
        invariant
            i <= t.len(),
            all == variants(t@),
            toks(out@) == placeholders(all.subrange(0, i as int)),
        decreases t.len() - i,
    {
        assert(all.subrange(0, i + 1).drop_last() =~= all.subrange(0, i as int));
        if t[i].carries_value() {
            let blank = Token::Ident { name: String::from_str("_"), origin: Origin::CallSite };
            push_separated(&mut out, blank);
        }
        i += 1;
    }
    assert(all.subrange(0, all.len() as int) =~= all);
    out
}

fn push_enum_variant(out: &mut Vec<Token>, v: &EscapeVariant)
    ensures
        toks(final(out)@) == toks(old(out)@) + enum_variant(v@),
{
    push_token(out, v.name());
    if v.carries_value() {
        let mut held: Vec<Token> = Vec::new();
        push_token(&mut held, v.name());
        assert(toks(held@) =~= seq![variant_name(v@)]);
        push_group(out, Delimiter::Parenthesis, held);
    }
    push_punct(out, ',');
}

fn emit_enum_variants(t: &Vec<EscapeVariant>) -> (out: Vec<Token>)
    ensures
        toks(out@) == enum_variants(variants(t@)),
{
    let ghost all = variants(t@);
    let mut out: Vec<Token> = Vec::new();
    let mut i: usize = 0;
    while i < t.len()
        invariant
            i <= t.len(),
            all == variants(t@),
            toks(out@) == enum_variants(all.subrange(0, i as int)),
        decreases t.len() - i,
    {
        assert(all.subrange(0, i + 1).drop_last() =~= all.subrange(0, i as int));
        push_enum_variant(&mut out, &t[i]);
        i += 1;
    }
    assert(all.subrange(0, all.len() as int) =~= all);
    out
}

fn push_allow_names(out: &mut Vec<Token>)
    ensures
        toks(final(out)@) == toks(old(out)@) + allow_names(),
{
    let mut lint: Vec<Token> = Vec::new();
    push_word(&mut lint, "non_camel_case_types");
    assert(toks(lint@) =~= seq![word("non_camel_case_types"@)]);
    push_allow(out, lint);
}

fn emit_enum_def(t: &Vec<EscapeVariant>) -> (out: Vec<Token>)
    ensures
        toks(out@) == enum_def(variants(t@)),
{
    let mut lint: Vec<Token> = Vec::new();
    push_word(&mut lint, "clippy");
    push_glued(&mut lint, ':');
    push_punct(&mut lint, ':');
    push_word(&mut lint, "enum_variant_names");
    assert(toks(lint@) =~= seq![
        word("clippy"@),
        glued(':'),
        punct(':'),
        word("enum_variant_names"@),
    ]);
    let mut out: Vec<Token> = Vec::new();
    push_allow_names(&mut out);
    push_allow(&mut out, lint);
    push_word(&mut out, "enum");
    push_hidden(&mut out, REASONS);
    push_punct(&mut out, '<');
    extend_with(&mut out, emit_type_params(t));
    push_punct(&mut out, '>');
    push_group(&mut out, Delimiter::Brace, emit_enum_variants(t));
    out
}

fn emit_type_decl(t: &Vec<EscapeVariant>) -> (out: Vec<Token>)
    ensures
        toks(out@) == type_decl(variants(t@)),
{
    let mut out: Vec<Token> = Vec::new();
    push_allow_names(&mut out);
    push_word(&mut out, "type");
    push_hidden(&mut out, CONTROL_FLOW);
    push_punct(&mut out, '<');
    extend_with(&mut out, emit_type_params(t));
    push_punct(&mut out, '>');
    push_punct(&mut out, '=');
    push_core2(&mut out, "ops", "ControlFlow");
    push_punct(&mut out, '<');
    push_hidden(&mut out, REASONS);
    push_punct(&mut out, '<');
    extend_with(&mut out, emit_type_params(t));
    push_punct(&mut out, '>');
    push_punct(&mut out, ',');
    push_token(&mut out, EscapeVariant::EarlyBreak.name());
    push_punct(&mut out, ',');
    push_punct(&mut out, '>');
    push_punct(&mut out, ';');
    out
}

fn push_bind_result(out: &mut Vec<Token>, t: &Vec<EscapeVariant>)
    ensures
        toks(final(out)@) == toks(old(out)@) + bind_result(variants(t@)),
{
    push_word(out, "let");
    push_hidden(out, RESULT);
    push_punct(out, ':');
    push_hidden(out, CONTROL_FLOW);
    push_punct(out, '<');
    extend_with(out, emit_placeholders(t));
    push_punct(out, '>');
    push_punct(out, '=');
}

fn push_keep_element(out: &mut Vec<Token>)
    ensures
        toks(final(out)@) == toks(old(out)@) + keep_element(),
{
    let mut element: Vec<Token> = Vec::new();
    push_hidden(&mut element, BODY_INPUT);
    assert(toks(element@) =~= seq![hidden(BODY_INPUT@)]);
    push_word(out, "let");
    push_word(out, "mut");
    push_hidden(out, BODY_INPUT);
    push_punct(out, '=');
    push_core3(out, "option", "Option", "Some");
    push_group(out, Delimiter::Parenthesis, element);
    push_punct(out, ';');
    push_word(out, "let");
    push_word(out, "mut");
    push_hidden(out, RESOLUTION);
    push_punct(out, '=');
    push_core3(out, "option", "Option", "None");
    push_punct(out, ';');
}

fn push_wrapped_body(out: &mut Vec<Token>, layers: Vec<Token>)
    ensures
        toks(final(out)@) == toks(old(out)@) + wrapped_body(toks(layers@)),
{
    let ghost within = toks(layers@);
    let mut value: Vec<Token> = Vec::new();
    push_hidden(&mut value, END_RESULT);
    assert(toks(value@) =~= seq![hidden(END_RESULT@)]);
    let mut resolution: Vec<Token> = Vec::new();
    push_core3(&mut resolution, "ops", "ControlFlow", "Continue");
    push_group(&mut resolution, Delimiter::Parenthesis, value);
    assert(toks(resolution@) =~= core3("ops"@, "ControlFlow"@, "Continue"@) + seq![
        group(Delimiter::Parenthesis, seq![hidden(END_RESULT@)]),
    ]);
    let mut unit_body: Vec<Token> = Vec::new();
    push_word(&mut unit_body, "let");
    push_hidden(&mut unit_body, END_RESULT);
    push_punct(&mut unit_body, '=');
    push_group(&mut unit_body, Delimiter::Brace, layers);
    push_punct(&mut unit_body, ';');
    push_allow_unreachable(&mut unit_body);
    push_group(&mut unit_body, Delimiter::Brace, emit_abort(resolution));
    assert(toks(unit_body@) =~= seq![
        word("let"@),
        hidden(END_RESULT@),
        punct('='),
        group(Delimiter::Brace, within),
        punct(';'),
    ] + allow_unreachable() + seq![
        group(
            Delimiter::Brace,
            abort(
                core3("ops"@, "ControlFlow"@, "Continue"@) + seq![
                    group(Delimiter::Parenthesis, seq![hidden(END_RESULT@)]),
                ],
            ),
        ),
    ]);
    let mut pinned: Vec<Token> = Vec::new();
    push_word(&mut pinned, "async");
    push_group(&mut pinned, Delimiter::Brace, unit_body);
    assert(toks(pinned@) =~= seq![word("async"@), group(Delimiter::Brace, toks(unit_body@))]);
    push_word(out, "let");
    push_hidden(out, BODY);
    push_punct(out, '=');
    push_core2(out, "pin", "pin");
    push_punct(out, '!');
    push_group(out, Delimiter::Parenthesis, pinned);
    push_punct(out, ';');
}

fn emit_when_ready() -> (out: Vec<Token>)
    ensures
        toks(out@) == when_ready(),
{
    let mut bound: Vec<Token> = Vec::new();
    push_word(&mut bound, "early_return");
    assert(toks(bound@) =~= seq![word("early_return"@)]);
    let mut value: Vec<Token> = Vec::new();
    push_word(&mut value, "early_return");
    let mut carried: Vec<Token> = Vec::new();
    push_reason(&mut carried, EscapeVariant::EarlyReturn.name());
    push_group(&mut carried, Delimiter::Parenthesis, value);
    push_punct(&mut carried, ',');
    assert(toks(carried@) =~= reason(variant_name(Variant::EarlyReturn)) + seq![
        group(Delimiter::Parenthesis, seq![word("early_return"@)]),
        punct(','),
    ]);
    let mut out: Vec<Token> = Vec::new();
    push_core3(&mut out, "task", "Poll", "Ready");
    push_group(&mut out, Delimiter::Parenthesis, bound);
    push_arrow(&mut out);
    push_core3(&mut out, "ops", "ControlFlow", "Break");
    push_group(&mut out, Delimiter::Parenthesis, carried);
    push_punct(&mut out, ',');
    out
}

fn emit_when_pending() -> (out: Vec<Token>)
    ensures
        toks(out@) == when_pending(),
{
    let mut said: Vec<Token> = Vec::new();
    push_literal(&mut said, MISUSE);
    assert(toks(said@) =~= seq![literal(MISUSE@)]);
    let mut out: Vec<Token> = Vec::new();
    push_core3(&mut out, "task", "Poll", "Pending");
    push_arrow(&mut out);
    push_hidden(&mut out, RESOLUTION);
    push_punct(&mut out, '.');
    push_word(&mut out, "expect");
    push_group(&mut out, Delimiter::Parenthesis, said);
    push_punct(&mut out, ',');
    out
}

fn push_single_poll(out: &mut Vec<Token>)
    ensures
        toks(final(out)@) == toks(old(out)@) + single_poll(),
{
    let mut waker: Vec<Token> = Vec::new();
    push_punct(&mut waker, '&');
    push_core3(&mut waker, "task", "Waker", "noop");
    push_unit(&mut waker);
    assert(toks(waker@) =~= seq![punct('&')] + core3("task"@, "Waker"@, "noop"@) + seq![unit()]);
    let mut polled: Vec<Token> = Vec::new();
    push_hidden(&mut polled, BODY);
    push_punct(&mut polled, ',');
    push_punct(&mut polled, '&');
    push_word(&mut polled, "mut");
    push_core3(&mut polled, "task", "Context", "from_waker");
    push_group(&mut polled, Delimiter::Parenthesis, waker);
    assert(toks(polled@) =~= seq![hidden(BODY@), punct(','), punct('&'), word("mut"@)] + core3(
        "task"@,
        "Context"@,
        "from_waker"@,
    ) + seq![group(Delimiter::Parenthesis, toks(waker@))]);
    let mut arms = emit_when_ready();
    extend_with(&mut arms, emit_when_pending());
    push_word(out, "match");
    push_core3(out, "future", "Future", "poll");
    push_group(out, Delimiter::Parenthesis, polled);
    push_group(out, Delimiter::Brace, arms);
}

fn emit_relay_closure(layers: Vec<Token>) -> (out: Vec<Token>)
    ensures
        toks(out@) == relay_closure(toks(layers@)),
{
    let mut block: Vec<Token> = Vec::new();
    push_keep_element(&mut block);
    push_wrapped_body(&mut block, layers);
    push_single_poll(&mut block);
    let mut out: Vec<Token> = Vec::new();
    push_punct(&mut out, '|');
    push_hidden(&mut out, BODY_INPUT);
    push_punct(&mut out, '|');
    push_group(&mut out, Delimiter::Brace, block);
    out
}

fn emit_with_callback(args: &Vec<Token>, callback: Vec<Token>) -> (out: Vec<Token>)
    ensures
        toks(out@) == with_callback(toks(args@), toks(callback@)),
{
    let mut out: Vec<Token> = Vec::new();
    push_all(&mut out, args);
    if args.len() > 0 && !args[args.len() - 1].is_punct(',') {
        push_punct(&mut out, ',');
    }
    extend_with(&mut out, callback);
    out
}

fn emit_call_site(call: &AnyCallExpr, t: &Vec<EscapeVariant>, callback: Vec<Token>) -> (out: Vec<
    Token,
>)
    ensures
        toks(out@) == call_site(call@, variants(t@), toks(callback@)),
{
    let mut out: Vec<Token> = Vec::new();
    match call {
        AnyCallExpr::Function { attrs, func, args } => {
            push_all(&mut out, attrs);
            push_bind_result(&mut out, t);
            push_all(&mut out, func);
            push_group(&mut out, Delimiter::Parenthesis, emit_with_callback(args, callback));
            push_punct(&mut out, ';');
        },
        AnyCallExpr::Method { attrs, receiver, method, turbofish, args } => {
            push_all(&mut out, attrs);
            push_bind_result(&mut out, t);
            push_all(&mut out, receiver);
            push_punct(&mut out, '.');
            push_token(&mut out, method.clone());
            push_all(&mut out, turbofish);
            push_group(&mut out, Delimiter::Parenthesis, emit_with_callback(args, callback));
            push_punct(&mut out, ';');
        },
    }
    out
}

fn push_dispatch_arm(out: &mut Vec<Token>, v: &EscapeVariant)
    ensures
        toks(final(out)@) == toks(old(out)@) + dispatch_arm(v@),
{
    push_reason(out, v.name());
    match v {
        EscapeVariant::EarlyReturn => {
            let mut bound: Vec<Token> = Vec::new();
            push_word(&mut bound, "early_result");
            assert(toks(bound@) =~= seq![word("early_result"@)]);
            push_group(out, Delimiter::Parenthesis, bound);
            push_arrow(out);
            push_word(out, "return");
            push_word(out, "early_result");
            push_punct(out, ',');
        },
        EscapeVariant::EarlyBreak => {
            let mut bound: Vec<Token> = Vec::new();
            push_word(&mut bound, "result");
            assert(toks(bound@) =~= seq![word("result"@)]);
            push_group(out, Delimiter::Parenthesis, bound);
            push_arrow(out);
            push_word(out, "result");
            push_punct(out, ',');
        },
        EscapeVariant::BreakTo(l) => {
            let mut bound: Vec<Token> = Vec::new();
            push_word(&mut bound, "break_out");
            assert(toks(bound@) =~= seq![word("break_out"@)]);
            push_group(out, Delimiter::Parenthesis, bound);
            push_arrow(out);
            push_word(out, "break");
            push_user_label(out, l);
            push_word(out, "break_out");
            push_punct(out, ',');
        },
        EscapeVariant::ContinueTo(l) => {
            push_arrow(out);
            push_word(out, "continue");
            push_user_label(out, l);
            push_punct(out, ',');
        },
    }
}

fn emit_dispatch_arms(t: &Vec<EscapeVariant>) -> (out: Vec<Token>)
    ensures
        toks(out@) == dispatch_arms(variants(t@)),
{
    let ghost all = variants(t@);
    let mut out: Vec<Token> = Vec::new();
    let mut i: usize = 0;
    while i < t.len()
        invariant
            i <= t.len(),
            all == variants(t@),
            toks(out@) == dispatch_arms(all.subrange(0, i as int)),
        decreases t.len() - i,
    {
        assert(all.subrange(0, i + 1).drop_last() =~= all.subrange(0, i as int));
        push_dispatch_arm(&mut out, &t[i]);
        i += 1;
    }
    assert(all.subrange(0, all.len() as int) =~= all);
    out
}

fn emit_dispatcher(t: &Vec<EscapeVariant>) -> (out: Vec<Token>)
    ensures
        toks(out@) == dispatcher(variants(t@)),
{
    let mut broke: Vec<Token> = Vec::new();
    push_word(&mut broke, "result");
    assert(toks(broke@) =~= seq![word("result"@)]);
    let mut went_on: Vec<Token> = Vec::new();
    push_word(&mut went_on, "result");
    let mut arms: Vec<Token> = Vec::new();
    push_core3(&mut arms, "ops", "ControlFlow", "Break");
    push_group(&mut arms, Delimiter::Parenthesis, broke);
    push_arrow(&mut arms);
    push_word(&mut arms, "match");
    push_word(&mut arms, "result");
    push_group(&mut arms, Delimiter::Brace, emit_dispatch_arms(t));
    push_punct(&mut arms, ',');
    push_core3(&mut arms, "ops", "ControlFlow", "Continue");
    push_group(&mut arms, Delimiter::Parenthesis, went_on);
    push_arrow(&mut arms);
    push_word(&mut arms, "result");
    push_punct(&mut arms, ',');
    assert(toks(arms@) =~= core3("ops"@, "ControlFlow"@, "Break"@) + seq![
        group(Delimiter::Parenthesis, seq![word("result"@)]),
    ] + arrow() + seq![
        word("match"@),
        word("result"@),
        group(Delimiter::Brace, dispatch_arms(variants(t@))),
        punct(','),
    ] + core3("ops"@, "ControlFlow"@, "Continue"@) + seq![
        group(Delimiter::Parenthesis, seq![word("result"@)]),
    ] + arrow() + seq![word("result"@), punct(',')]);
    let mut out: Vec<Token> = Vec::new();
    push_word(&mut out, "match");
    push_hidden(&mut out, RESULT);
    push_group(&mut out, Delimiter::Brace, arms);
    out
}

fn emit_expansion(spec: &CbitForExpr, entries: &Vec<CbitForExprSingleBreak>) -> (out: Vec<Token>)
    requires
        external_labels(entries@) == spec@.escape_labels,
    ensures
        toks(out@) == expansion(spec@),
{
    let t = build_taxonomy(entries);
    let closure = emit_relay_closure(emit_layered(entries, emit_innermost(spec)));
    let mut block = emit_enum_def(&t);
    extend_with(&mut block, emit_type_decl(&t));
    extend_with(&mut block, emit_call_site(&spec.call, &t, closure));
    extend_with(&mut block, emit_dispatcher(&t));
    let mut out: Vec<Token> = Vec::new();
    push_group(&mut out, Delimiter::Brace, block);
    out
}

impl CbitForExpr {
    /// Expands the loop into the tokens that stand in its place.
    pub fn expand(&self) -> (out: Vec<Token>)
        ensures
            toks(out@) == expansion(self@),
    {
        match &self.breaks {
            Some(clause) => emit_expansion(self, &clause.lt),
            None => {
                let none: Vec<CbitForExprSingleBreak> = Vec::new();
                assert(external_labels(none@) =~= Seq::<ExternalLabel>::empty());
                emit_expansion(self, &none)
            },
        }
    }
}

} // verus!
