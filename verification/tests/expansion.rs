use cbit::cbit;
use cbit::syntax::{CbitForExpr, ParseErrorKind};
use cbit::taxonomy::{build_taxonomy, EscapeVariant};
use cbit::token::{render, Delimiter, Origin, Token};
use proc_macro2::{Spacing, TokenStream, TokenTree};
use std::str::FromStr;

fn lower_expansion(stream: TokenStream, next: &mut usize) -> Vec<Token> {
    let mut out = Vec::new();
    for tree in stream {
        let origin = Origin::Source(*next);
        *next += 1;
        out.push(match tree {
            TokenTree::Group(g) => Token::Group {
                delimiter: match g.delimiter() {
                    proc_macro2::Delimiter::Parenthesis => Delimiter::Parenthesis,
                    proc_macro2::Delimiter::Brace => Delimiter::Brace,
                    proc_macro2::Delimiter::Bracket => Delimiter::Bracket,
                    proc_macro2::Delimiter::None => Delimiter::Invisible,
                },
                inner: lower_expansion(g.stream(), next),
                origin,
            },
            TokenTree::Ident(i) => Token::Ident { name: i.to_string(), origin },
            TokenTree::Punct(p) => {
                Token::Punct { ch: p.as_char(), joint: p.spacing() == Spacing::Joint, origin }
            }
            TokenTree::Literal(l) => Token::Literal { text: l.to_string(), origin },
        });
    }
    out
}

fn lex_source(source: &str) -> Vec<Token> {
    let mut next = 0;
    lower_expansion(TokenStream::from_str(source).unwrap(), &mut next)
}

/// The same tokens with every origin and every spacing forgotten.
fn bare(tokens: &[Token]) -> Vec<Token> {
    tokens
        .iter()
        .map(|t| match t {
            Token::Ident { name, .. } => {
                Token::Ident { name: name.clone(), origin: Origin::CallSite }
            }
            Token::Punct { ch, .. } => {
                Token::Punct { ch: *ch, joint: false, origin: Origin::CallSite }
            }
            Token::Literal { text, .. } => {
                Token::Literal { text: text.clone(), origin: Origin::CallSite }
            }
            Token::Group { delimiter, inner, .. } => Token::Group {
                delimiter: *delimiter,
                inner: bare(inner),
                origin: Origin::CallSite,
            },
        })
        .collect()
}

fn abort_text(resolution: &str) -> String {
    format!(
        "__cbit_internal_how_to_resolve_pending = ::core::option::Option::Some({resolution});
         ::core::future::pending::<()>().await;
         ::core::unreachable!();"
    )
}

fn innermost_text(label: &str, pattern: &str, body: &str) -> String {
    let abort = abort_text(
        "::core::ops::ControlFlow::Break(__CbitInternalOurControlFlowResult::EarlyBreak(__cbit_internal_break_result))",
    );
    format!(
        "'__cbit_internal_absorber_magic_innermost: {{
            let mut __cbit_internal_did_run = false;
            let __cbit_internal_break_result = {label} loop {{
                if __cbit_internal_did_run {{
                    break '__cbit_internal_absorber_magic_innermost ::core::default::Default::default();
                }}
                __cbit_internal_did_run = true;
                let {pattern} = __cbit_internal_body_input.take().unwrap();
                let __cbit_internal_break_result = {{ {body} }};
                #[allow(unreachable_code)]
                break '__cbit_internal_absorber_magic_innermost __cbit_internal_break_result;
            }};
            #[allow(unreachable_code)]
            {{ {abort} }}
        }}"
    )
}

fn layer_text(name: &str, accepts_continue: bool, inner: &str) -> String {
    let on_break = abort_text(&format!(
        "::core::ops::ControlFlow::Break(__CbitInternalOurControlFlowResult::EarlyBreakTo_{name}(__cbit_internal_break_result))"
    ));
    if accepts_continue {
        let on_continue = abort_text(&format!(
            "::core::ops::ControlFlow::Break(__CbitInternalOurControlFlowResult::EarlyContinueTo_{name})"
        ));
        format!(
            "'__cbit_internal_absorber_magic_for_{name}: {{
                let mut __cbit_internal_did_run = false;
                let __cbit_internal_break_result = '{name}: loop {{
                    if __cbit_internal_did_run {{ {on_continue} }}
                    __cbit_internal_did_run = true;
                    let __cbit_internal_break_result = {{ {inner} }};
                    #[allow(unreachable_code)]
                    break '__cbit_internal_absorber_magic_for_{name} __cbit_internal_break_result;
                }};
                #[allow(unreachable_code)]
                {{ {on_break} }}
            }}"
        )
    } else {
        format!(
            "'__cbit_internal_absorber_magic_for_{name}: {{
                let __cbit_internal_break_result = '{name}: {{
                    let __cbit_internal_break_result = {{ {inner} }};
                    #[allow(unreachable_code)]
                    break '__cbit_internal_absorber_magic_for_{name} __cbit_internal_break_result;
                }};
                #[allow(unreachable_code)]
                {{ {on_break} }}
            }}"
        )
    }
}

/// The expansion written out as source text.
fn expansion_text(
    label: &str,
    pattern: &str,
    attrs: &str,
    callee: &str,
    args: &str,
    labels: &[(&str, bool)],
    body: &str,
) -> String {
    let mut params = String::from("EarlyReturn, EarlyBreak");
    let mut holes = String::from("_, _");
    let mut variants = String::from("EarlyReturn(EarlyReturn), EarlyBreak(EarlyBreak),");
    let mut arms = String::from(
        "__CbitInternalOurControlFlowResult::EarlyReturn(early_result) => return early_result,
         __CbitInternalOurControlFlowResult::EarlyBreak(result) => result,",
    );
    let mut layers = innermost_text(label, pattern, body);
    for (name, _) in labels {
        params += &format!(", EarlyBreakTo_{name}");
        holes += ", _";
        variants += &format!("EarlyBreakTo_{name}(EarlyBreakTo_{name}),");
        arms += &format!(
            "__CbitInternalOurControlFlowResult::EarlyBreakTo_{name}(break_out) => break '{name} break_out,"
        );
    }
    for (name, accepts_continue) in labels {
        if *accepts_continue {
            variants += &format!("EarlyContinueTo_{name},");
            arms += &format!(
                "__CbitInternalOurControlFlowResult::EarlyContinueTo_{name} => continue '{name},"
            );
        }
        layers = layer_text(name, *accepts_continue, &layers);
    }
    let finish = abort_text("::core::ops::ControlFlow::Continue(__cbit_internal_end_result)");
    format!(
        "{{
            #[allow(non_camel_case_types)]
            #[allow(clippy::enum_variant_names)]
            enum __CbitInternalOurControlFlowResult<{params}> {{ {variants} }}

            #[allow(non_camel_case_types)]
            type __CbitInternalOurControlFlow<{params}> = ::core::ops::ControlFlow<
                __CbitInternalOurControlFlowResult<{params}>,
                EarlyBreak,
            >;

            {attrs}
            let __cbit_internal_result: __CbitInternalOurControlFlow<{holes}> = {callee} ({args} |__cbit_internal_body_input| {{
                let mut __cbit_internal_body_input = ::core::option::Option::Some(__cbit_internal_body_input);
                let mut __cbit_internal_how_to_resolve_pending = ::core::option::Option::None;

                let __cbit_internal_body = ::core::pin::pin!(async {{
                    let __cbit_internal_end_result = {{ {layers} }};

                    #[allow(unreachable_code)] {{ {finish} }}
                }});

                match ::core::future::Future::poll(
                    __cbit_internal_body,
                    &mut ::core::task::Context::from_waker(&::core::task::Waker::noop())
                ) {{
                    ::core::task::Poll::Ready(early_return) => ::core::ops::ControlFlow::Break(
                        __CbitInternalOurControlFlowResult::EarlyReturn(early_return),
                    ),
                    ::core::task::Poll::Pending => __cbit_internal_how_to_resolve_pending.expect(
                        \"the async block in a cbit iterator is an implementation detail; do not `.await` in it!\"
                    ),
                }}
            }});

            match __cbit_internal_result {{
                ::core::ops::ControlFlow::Break(result) => match result {{ {arms} }},
                ::core::ops::ControlFlow::Continue(result) => result,
            }}
        }}"
    )
}

fn check_expansion(source: &str, expected: String) {
    let ours = cbit(&lex_source(source)).unwrap();
    let wanted = lex_source(&expected);
    assert_eq!(render(&bare(&ours)), render(&bare(&wanted)));
    assert_eq!(bare(&ours), bare(&wanted));
    let reread = syn::parse_str::<syn::Expr>(&render(&ours));
    assert!(matches!(reread, Ok(syn::Expr::Block(_))), "{:?}", reread.err());
    assert_eq!(bare(&lex_source(&render(&ours))), bare(&wanted));
}

#[test]
fn plain_loop_expands_to_call_and_dispatcher() {
    check_expansion(
        "for i in up_to(n) { c += i; }",
        expansion_text("", "i", "", "up_to", "n,", &[], "c += i;"),
    );
}

#[test]
fn loop_label_stands_on_the_innermost_loop() {
    check_expansion(
        "'me: for i in up_to(n) { if i == 2 { continue 'me; } c += i; if c > 5 { break; } }",
        expansion_text(
            "'me:",
            "i",
            "",
            "up_to",
            "n,",
            &[],
            "if i == 2 { continue 'me; } c += i; if c > 5 { break; }",
        ),
    );
}

#[test]
fn break_clause_adds_one_layer_for_each_label() {
    check_expansion(
        "for i in up_to(n) break loop 'outer_1, 'outer_2 {
            if i == 5 && c < 20 { continue 'outer_1; }
            if i == 8 { break 'outer_2 c < 10; }
            c += i;
        }",
        expansion_text(
            "",
            "i",
            "",
            "up_to",
            "n,",
            &[("outer_1", true), ("outer_2", false)],
            "if i == 5 && c < 20 { continue 'outer_1; }
             if i == 8 { break 'outer_2 c < 10; }
             c += i;",
        ),
    );
}

#[test]
fn method_call_keeps_receiver_and_type_arguments() {
    check_expansion(
        "for _ in Demo.method::<_>() { println!(\"We ran!\"); }",
        expansion_text("", "_", "", "Demo.method::<_>", "", &[], "println!(\"We ran!\");"),
    );
}

#[test]
fn attributes_move_to_the_binding_of_the_result() {
    check_expansion(
        "'me: for (accum, value) in #[inline] reduce(0, list,) break 'a, loop 'b, loop 'c { accum + value }",
        expansion_text(
            "'me:",
            "(accum, value)",
            "#[inline]",
            "reduce",
            "0, list,",
            &[("a", false), ("b", true), ("c", true)],
            "accum + value",
        ),
    );
}

#[test]
fn callback_follows_the_arguments_behind_a_comma() {
    let with_comma = cbit(&lex_source("for x in f(a, b,) { }")).unwrap();
    let without = cbit(&lex_source("for x in f(a, b) { }")).unwrap();
    assert_eq!(bare(&with_comma), bare(&without));
    let none = render(&cbit(&lex_source("for x in f() { }")).unwrap());
    assert!(none.contains("= f ( | __cbit_internal_body_input | {"), "{}", none);
}

#[test]
fn parse_errors_expand_to_nothing() {
    let err = cbit(&lex_source("for i in 0..n { c += i; }")).unwrap_err();
    assert_eq!((err.kind, err.at), (ParseErrorKind::ExpectedCall, 3));
    let err = cbit(&lex_source("for i in f(n) break { }")).unwrap_err();
    assert_eq!((err.kind, err.at), (ParseErrorKind::ExpectedLabel, 6));
}

fn find_ident<'a>(tokens: &'a [Token], wanted: &str, found: &mut Vec<&'a Token>) {
    for t in tokens {
        match t {
            Token::Ident { name, .. } if name == wanted => found.push(t),
            Token::Group { inner, .. } => find_ident(inner, wanted, found),
            _ => {}
        }
    }
}

fn origins_of(tokens: &[Token], wanted: &str) -> Vec<Origin> {
    let mut found = Vec::new();
    find_ident(tokens, wanted, &mut found);
    found
        .iter()
        .map(|t| match t {
            Token::Ident { origin, .. } => *origin,
            _ => unreachable!(),
        })
        .collect()
}

#[test]
fn names_of_the_expansion_are_hidden_from_the_body() {
    let source = "for i in up_to(n) break 'out { let __cbit_internal_result = i; early_return(); }";
    let ours = cbit(&lex_source(source)).unwrap();
    let results = origins_of(&ours, "__cbit_internal_result");
    assert_eq!(results.iter().filter(|o| **o == Origin::MixedSite).count(), 2);
    assert_eq!(results.iter().filter(|o| matches!(o, Origin::Source(_))).count(), 1);
    for hidden in [
        "__cbit_internal_did_run",
        "__cbit_internal_body_input",
        "__cbit_internal_how_to_resolve_pending",
        "__cbit_internal_break_result",
        "__cbit_internal_body",
        "__cbit_internal_end_result",
        "__CbitInternalOurControlFlowResult",
        "__CbitInternalOurControlFlow",
        "__cbit_internal_absorber_magic_innermost",
        "__cbit_internal_absorber_magic_for_out",
    ] {
        let origins = origins_of(&ours, hidden);
        assert!(!origins.is_empty(), "{}", hidden);
        assert!(origins.iter().all(|o| *o == Origin::MixedSite), "{}", hidden);
    }
    let plain = origins_of(&ours, "early_return");
    assert_eq!(plain.iter().filter(|o| **o == Origin::CallSite).count(), 2);
    assert_eq!(plain.iter().filter(|o| matches!(o, Origin::Source(_))).count(), 1);
}

#[test]
fn variant_names_are_written_where_the_label_was() {
    let source = "for i in up_to(n) break loop 'out { }";
    let tokens = lex_source(source);
    let label = match &tokens[8] {
        Token::Ident { name, origin } => {
            assert_eq!(name, "out");
            *origin
        }
        other => panic!("{:?}", other),
    };
    let ours = cbit(&tokens).unwrap();
    let breaks = origins_of(&ours, "EarlyBreakTo_out");
    assert_eq!(breaks.len(), 7);
    assert!(breaks.iter().all(|o| *o == label));
    let continues = origins_of(&ours, "EarlyContinueTo_out");
    assert_eq!(continues.len(), 3);
    assert!(continues.iter().all(|o| *o == label));
    let users = origins_of(&ours, "out");
    assert_eq!(users.len(), 3);
    assert!(users.iter().all(|o| *o == label));
}

#[test]
fn user_tokens_pass_through_unchanged() {
    let source = "for (a, b) in #[x] recv.each::<T>(1, two(3)) { body(a, b, [4]); }";
    let tokens = lex_source(source);
    let parsed = CbitForExpr::parse(&tokens).unwrap();
    let ours = parsed.expand();
    let text = render(&ours);
    assert!(text.contains("let ( a , b ) = __cbit_internal_body_input . take ( ) . unwrap ( ) ;"));
    assert!(text.contains("= { body ( a , b , [ 4 ] ) ; } ;"), "{}", text);
    assert!(text.contains("# [ x ] let __cbit_internal_result :"), "{}", text);
    assert!(text.contains("= recv . each ::< T > ( 1 , two ( 3 ) , | __cbit_internal_body_input |"));
    let mut written = Vec::new();
    find_ident(&tokens, "two", &mut written);
    let mut found = Vec::new();
    find_ident(&ours, "two", &mut found);
    assert_eq!(written.len(), 1);
    assert_eq!(found, written);
}

#[test]
fn taxonomy_lists_breaks_before_continues() {
    let parsed =
        CbitForExpr::parse(&lex_source("for i in f(n) break loop 'a, 'b, loop 'c { }")).unwrap();
    let t = build_taxonomy(&parsed.breaks.as_ref().unwrap().lt);
    let names: Vec<String> = t
        .iter()
        .map(|v| match v.name() {
            Token::Ident { name, .. } => name,
            other => panic!("{:?}", other),
        })
        .collect();
    assert_eq!(
        names,
        [
            "EarlyReturn",
            "EarlyBreak",
            "EarlyBreakTo_a",
            "EarlyBreakTo_b",
            "EarlyBreakTo_c",
            "EarlyContinueTo_a",
            "EarlyContinueTo_c"
        ]
    );
    assert_eq!(t.iter().filter(|v| v.carries_value()).count(), 5);
    assert!(matches!(t[0], EscapeVariant::EarlyReturn));
    assert!(matches!(t[1], EscapeVariant::EarlyBreak));
    let none = build_taxonomy(&Vec::new());
    assert_eq!(none.len(), 2);
}
