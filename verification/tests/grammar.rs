use cbit::subgrammar::CallShape;
use cbit::syntax::{
    AnyCallExpr, CbitForExpr, CbitForExprBreaks, CbitForExprSingleBreak, OpaqueBody, ParseError,
    ParseErrorKind,
};
use cbit::token::{render, Delimiter, Origin, Token};
use proc_macro2::{Spacing, TokenStream, TokenTree};
use std::str::FromStr;

fn lower_grammar(stream: TokenStream, next: &mut usize) -> Vec<Token> {
    let mut out = Vec::new();
    for tree in stream {
        let origin = Origin::Source(*next);
        *next += 1;
        out.push(match tree {
            TokenTree::Group(g) => Token::Group {
                delimiter: match g.delimiter() {
                    proc_macro2::Delimiter::Parenthesis => Delimiter::Parenthesis,
                    proc_macro2::Delimiter::Brace => Delimiter::Brace,
                    proc_macro2::Delimiter::Bracket => Delimiter::Bracket,
                    proc_macro2::Delimiter::None => Delimiter::Invisible,
                },
                inner: lower_grammar(g.stream(), next),
                origin,
            },
            TokenTree::Ident(i) => Token::Ident { name: i.to_string(), origin },
            TokenTree::Punct(p) => {
                Token::Punct { ch: p.as_char(), joint: p.spacing() == Spacing::Joint, origin }
            }
            TokenTree::Literal(l) => Token::Literal { text: l.to_string(), origin },
        });
    }
    out
}

fn lex(source: &str) -> Vec<Token> {
    let mut next = 0;
    lower_grammar(TokenStream::from_str(source).unwrap(), &mut next)
}

fn parse(source: &str) -> Result<CbitForExpr, ParseError> {
    CbitForExpr::parse(&lex(source))
}

fn error_of(source: &str) -> (ParseErrorKind, usize) {
    let e = parse(source).unwrap_err();
    (e.kind, e.at)
}

fn text(tokens: &Vec<Token>) -> String {
    render(tokens)
}

#[test]
fn empty_input_lacks_for() {
    let tokens: Vec<Token> = Vec::new();
    let err = CbitForExpr::parse(&tokens).unwrap_err();
    assert_eq!(err.kind, ParseErrorKind::ExpectedFor);
    assert_eq!(err.at, 0);
}

#[test]
fn plain_loop_over_a_function_call() {
    let parsed = parse("for i in up_to(n) { c += i; }").unwrap();
    assert!(parsed.label.is_none());
    assert!(parsed.breaks.is_none());
    assert_eq!(text(&parsed.body_pattern), "i ");
    assert_eq!(text(&parsed.body.body), "c += i ; ");
    match &parsed.call {
        AnyCallExpr::Function { attrs, func, args } => {
            assert!(attrs.is_empty());
            assert_eq!(text(func), "up_to ");
            assert_eq!(text(args), "n ");
        }
        other => panic!("not a function call: {:?}", other),
    }
}

#[test]
fn labelled_loop_keeps_its_label() {
    let parsed = parse("'me: for i in up_to(n) { continue 'me; }").unwrap();
    let label = parsed.label.unwrap();
    assert_eq!(label.name, "me");
    assert_eq!(label.origin, Origin::Source(1));
}

#[test]
fn method_call_with_turbofish_and_no_arguments() {
    let parsed = parse("for _ in Demo.method::<_>() { println!(\"We ran!\"); }").unwrap();
    match &parsed.call {
        AnyCallExpr::Method { attrs, receiver, method, turbofish, args } => {
            assert!(attrs.is_empty());
            assert_eq!(text(receiver), "Demo ");
            assert!(method.is_ident("method"));
            assert_eq!(text(turbofish), "::< _ > ");
            assert!(args.is_empty());
        }
        other => panic!("not a method call: {:?}", other),
    }
}

#[test]
fn method_call_on_a_longer_receiver() {
    let parsed = parse("for (k, v) in self.map.lock().entries(1, 2) { use_it(k, v) }").unwrap();
    assert_eq!(text(&parsed.body_pattern), "( k , v ) ");
    match &parsed.call {
        AnyCallExpr::Method { receiver, method, turbofish, args, .. } => {
            assert_eq!(text(receiver), "self . map . lock ( ) ");
            assert!(method.is_ident("entries"));
            assert!(turbofish.is_empty());
            assert_eq!(text(args), "1 , 2 ");
        }
        other => panic!("not a method call: {:?}", other),
    }
}

#[test]
fn call_of_a_call_is_a_function_call() {
    let parsed = parse("for x in make()(3) { }").unwrap();
    match &parsed.call {
        AnyCallExpr::Function { func, args, .. } => {
            assert_eq!(text(func), "make ( ) ");
            assert_eq!(text(args), "3 ");
        }
        other => panic!("not a function call: {:?}", other),
    }
}

#[test]
fn attributes_of_the_call_are_set_apart() {
    let parsed = parse("for x in #[inline] #[cold] walk(tree) { }").unwrap();
    match &parsed.call {
        AnyCallExpr::Function { attrs, func, .. } => {
            assert_eq!(text(attrs), "# [ inline ] # [ cold ] ");
            assert_eq!(text(func), "walk ");
        }
        other => panic!("not a function call: {:?}", other),
    }
}

#[test]
fn break_clause_keeps_order_and_loop_marks() {
    let parsed = parse("for v in up_to(n) break 'outer, loop 'even_more_outer { }").unwrap();
    let clause = parsed.breaks.unwrap();
    assert_eq!(clause.lt.len(), 2);
    assert!(!clause.lt[0].kw_loop);
    assert_eq!(clause.lt[0].lt.name, "outer");
    assert!(clause.lt[1].kw_loop);
    assert_eq!(clause.lt[1].lt.name, "even_more_outer");
}

#[test]
fn struct_literal_receiver_keeps_its_braces() {
    let parsed = parse("for x in Range { lo: 1, hi: 2 }.each(step) { total += x; }").unwrap();
    match &parsed.call {
        AnyCallExpr::Method { receiver, .. } => {
            assert_eq!(text(receiver), "Range { lo : 1 , hi : 2 } ");
        }
        other => panic!("not a method call: {:?}", other),
    }
    assert_eq!(text(&parsed.body.body), "total += x ; ");
}

#[test]
fn label_without_colon_is_refused() {
    assert_eq!(error_of("'me for i in f(x) { }"), (ParseErrorKind::ExpectedColon, 2));
}

#[test]
fn missing_for_is_refused() {
    assert_eq!(error_of("while i in f(x) { }"), (ParseErrorKind::ExpectedFor, 0));
    assert_eq!(error_of("'a: loop { }"), (ParseErrorKind::ExpectedFor, 3));
}

#[test]
fn missing_in_is_refused() {
    assert_eq!(error_of("for i of f(x) { }"), (ParseErrorKind::ExpectedIn, 6));
}

#[test]
fn malformed_pattern_is_refused() {
    assert_eq!(error_of("for 1 + 2 in f(x) { }"), (ParseErrorKind::MalformedPattern, 1));
    assert_eq!(error_of("for in f(x) { }"), (ParseErrorKind::MalformedPattern, 1));
    assert_eq!(error_of("for a | b in f(x) { }"), (ParseErrorKind::MalformedPattern, 1));
}

#[test]
fn iterator_that_is_no_call_is_refused() {
    assert_eq!(error_of("for i in 0..n { }"), (ParseErrorKind::ExpectedCall, 3));
    assert_eq!(error_of("for i in items { }"), (ParseErrorKind::ExpectedCall, 3));
    assert_eq!(error_of("for i in !f(x) { }"), (ParseErrorKind::ExpectedCall, 3));
    assert_eq!(error_of("for i in a + f(x) { }"), (ParseErrorKind::ExpectedCall, 3));
    assert_eq!(error_of("for i in v.len { }"), (ParseErrorKind::ExpectedCall, 3));
}

#[test]
fn iterator_that_is_no_expression_is_refused() {
    assert_eq!(error_of("for i in f(x) g { }"), (ParseErrorKind::MalformedCall, 3));
    assert_eq!(error_of("for i in { }"), (ParseErrorKind::MalformedCall, 3));
}

#[test]
fn empty_break_list_is_refused() {
    assert_eq!(error_of("for i in f(x) break { }"), (ParseErrorKind::ExpectedLabel, 6));
    assert_eq!(error_of("for i in f(x) break loop { }"), (ParseErrorKind::ExpectedLabel, 7));
}

#[test]
fn trailing_comma_in_break_list_is_refused() {
    assert_eq!(error_of("for i in f(x) break 'a, { }"), (ParseErrorKind::ExpectedLabel, 9));
}

#[test]
fn label_declared_twice_is_refused() {
    assert_eq!(
        error_of("for i in f(x) break 'a, loop 'b, 'a { }"),
        (ParseErrorKind::DuplicateLabel, 13)
    );
}

#[test]
fn missing_body_is_refused() {
    assert_eq!(error_of("for i in f(x)"), (ParseErrorKind::ExpectedBody, 5));
    assert_eq!(error_of("for i in f(x) break 'a"), (ParseErrorKind::ExpectedBody, 8));
    assert_eq!(error_of("for i in f(x) break 'a (y)"), (ParseErrorKind::ExpectedBody, 8));
}

#[test]
fn tokens_after_the_body_are_refused() {
    assert_eq!(
        error_of("for i in f(x) break 'a { } extra"),
        (ParseErrorKind::UnexpectedToken, 9)
    );
}

#[test]
fn leftmost_error_wins() {
    assert_eq!(error_of("for 1 + 2 in items"), (ParseErrorKind::MalformedPattern, 1));
    assert_eq!(error_of("for i in items break { }"), (ParseErrorKind::ExpectedCall, 3));
}

#[test]
fn single_break_reads_at_a_position() {
    let tokens = lex("x loop 'a , 'b");
    let (entry, next) = CbitForExprSingleBreak::parse(&tokens, 1).unwrap();
    assert!(entry.kw_loop);
    assert_eq!(entry.lt.name, "a");
    assert_eq!(next, 4);
    let (entry, next) = CbitForExprSingleBreak::parse(&tokens, 5).unwrap();
    assert!(!entry.kw_loop);
    assert_eq!(entry.lt.name, "b");
    assert_eq!(next, 7);
    let err = CbitForExprSingleBreak::parse(&tokens, 0).unwrap_err();
    assert_eq!((err.kind, err.at), (ParseErrorKind::ExpectedLabel, 0));
    let err = CbitForExprSingleBreak::parse(&tokens, 7).unwrap_err();
    assert_eq!((err.kind, err.at), (ParseErrorKind::ExpectedLabel, 7));
    let err = CbitForExprSingleBreak::parse(&tokens, 99).unwrap_err();
    assert_eq!((err.kind, err.at), (ParseErrorKind::ExpectedLabel, 99));
}

#[test]
fn break_clause_is_optional() {
    let tokens = lex("f { }");
    let (clause, next) = CbitForExprBreaks::parse(&tokens, 1).unwrap();
    assert!(clause.is_none());
    assert_eq!(next, 1);
    let tokens = lex("break 'a , 'b { }");
    let (clause, next) = CbitForExprBreaks::parse(&tokens, 0).unwrap();
    assert_eq!(clause.unwrap().lt.len(), 2);
    assert_eq!(next, 6);
}

#[test]
fn body_is_taken_as_it_is() {
    let tokens = lex("{ not ( valid ] rust? } tail".replace(']', ")").as_str());
    let (body, next) = OpaqueBody::parse(&tokens, 0).unwrap();
    assert_eq!(text(&body.body), "not ( valid ) rust ? ");
    assert_eq!(next, 1);
    let err = OpaqueBody::parse(&tokens, 1).unwrap_err();
    assert_eq!((err.kind, err.at), (ParseErrorKind::ExpectedBody, 1));
    let err = OpaqueBody::parse(&tokens, 2).unwrap_err();
    assert_eq!((err.kind, err.at), (ParseErrorKind::ExpectedBody, 2));
}

#[test]
fn call_parts_follow_the_shape_given() {
    let call = lex("a.b(c)");
    assert!(matches!(
        AnyCallExpr::from_shape(&call, CallShape::Method),
        Ok(AnyCallExpr::Method { .. })
    ));
    assert!(matches!(
        AnyCallExpr::from_shape(&call, CallShape::Function),
        Ok(AnyCallExpr::Function { .. })
    ));
    assert_eq!(
        AnyCallExpr::from_shape(&call, CallShape::Other),
        Err(ParseErrorKind::ExpectedCall)
    );
    assert_eq!(
        AnyCallExpr::from_shape(&call, CallShape::Malformed),
        Err(ParseErrorKind::MalformedCall)
    );
    let no_arguments = lex("a.b");
    assert_eq!(
        AnyCallExpr::from_shape(&no_arguments, CallShape::Method),
        Err(ParseErrorKind::ExpectedCall)
    );
    let no_dot = lex("f(c)");
    assert_eq!(
        AnyCallExpr::from_shape(&no_dot, CallShape::Method),
        Err(ParseErrorKind::ExpectedCall)
    );
    let only_arguments = lex("#[a] (c)");
    assert_eq!(
        AnyCallExpr::from_shape(&only_arguments, CallShape::Function),
        Err(ParseErrorKind::ExpectedCall)
    );
}

#[test]
fn call_shape_comes_from_the_expression_grammar() {
    assert!(matches!(AnyCallExpr::parse(&lex("f(x)")), Ok(AnyCallExpr::Function { .. })));
    assert!(matches!(AnyCallExpr::parse(&lex("a.f(x)")), Ok(AnyCallExpr::Method { .. })));
    assert!(matches!(AnyCallExpr::parse(&lex("a.0(x)")), Ok(AnyCallExpr::Function { .. })));
    assert!(matches!(AnyCallExpr::parse(&lex("(a.f)(x)")), Ok(AnyCallExpr::Function { .. })));
    assert_eq!(AnyCallExpr::parse(&lex("a.f(x)?")), Err(ParseErrorKind::ExpectedCall));
    assert_eq!(AnyCallExpr::parse(&lex("a.f(x) as u8")), Err(ParseErrorKind::ExpectedCall));
    assert_eq!(AnyCallExpr::parse(&lex("f(x) +")), Err(ParseErrorKind::MalformedCall));
    assert_eq!(AnyCallExpr::parse(&lex("")), Err(ParseErrorKind::MalformedCall));
}

#[test]
fn assemble_takes_the_answers_of_the_subgrammars() {
    let tokens = lex("for i in f(x) { }");
    assert!(CbitForExpr::assemble(&tokens, true, CallShape::Function).is_ok());
    let e = CbitForExpr::assemble(&tokens, false, CallShape::Function).unwrap_err();
    assert_eq!((e.kind, e.at), (ParseErrorKind::MalformedPattern, 1));
    let e = CbitForExpr::assemble(&tokens, true, CallShape::Other).unwrap_err();
    assert_eq!((e.kind, e.at), (ParseErrorKind::ExpectedCall, 3));
    let e = CbitForExpr::assemble(&tokens, true, CallShape::Malformed).unwrap_err();
    assert_eq!((e.kind, e.at), (ParseErrorKind::MalformedCall, 3));
}

#[test]
fn rendering_writes_glued_punctuation_together() {
    assert_eq!(text(&lex("a::b(& 'x c, 1.5) => {d}")), "a :: b ( & 'x c , 1.5 ) => { d } ");
    assert_eq!(text(&lex("a::<B>()")), "a ::< B > ( ) ");
}

#[test]
fn patterns_of_many_shapes_are_accepted() {
    for pattern in [
        "x",
        "_",
        "(a, b)",
        "&(a, ref b)",
        "Some(x)",
        "Point { x, y: _ }",
        "[first, .., last]",
        "mut total",
        "0..=9",
        "crate::Unit",
        "whole @ (a, _)",
        "each!(a in b)",
    ] {
        let source = format!("for {} in walk(tree) {{ }}", pattern);
        let parsed = parse(&source).unwrap();
        assert_eq!(text(&parsed.body_pattern), text(&lex(pattern)), "{}", pattern);
    }
}

#[test]
fn calls_of_many_shapes_are_split_at_the_right_place() {
    let function = |source: &str| match parse(source).unwrap().call {
        AnyCallExpr::Function { func, args, .. } => (text(&func), text(&args)),
        other => panic!("{:?}", other),
    };
    let method = |source: &str| match parse(source).unwrap().call {
        AnyCallExpr::Method { receiver, method, turbofish, args, .. } => {
            (text(&receiver), text(&vec![method]), text(&turbofish), text(&args))
        }
        other => panic!("{:?}", other),
    };
    assert_eq!(
        function("for x in Vec::<u8>::walk(v, 1) { }"),
        ("Vec ::< u8 >:: walk ".to_string(), "v , 1 ".to_string())
    );
    assert_eq!(
        function("for x in (|n| n)(1) { }"),
        ("( | n | n ) ".to_string(), "1 ".to_string())
    );
    assert_eq!(
        function("for x in table[0](key) { }"),
        ("table [ 0 ] ".to_string(), "key ".to_string())
    );
    assert_eq!(
        method("for x in a.b::<Vec<(u8, T)>, 3>(c.d(), e) { }"),
        (
            "a ".to_string(),
            "b ".to_string(),
            "::< Vec < ( u8 , T ) >, 3 > ".to_string(),
            "c . d ( ) , e ".to_string()
        )
    );
    assert_eq!(
        method("for x in 1.5.each(step) { }"),
        ("1.5 ".to_string(), "each ".to_string(), "".to_string(), "step ".to_string())
    );
    assert_eq!(
        method("for x in pair.0.each() { }"),
        ("pair . 0 ".to_string(), "each ".to_string(), "".to_string(), "".to_string())
    );
    assert_eq!(
        method("for x in items!{ a, b }.each(f) break 'out { }"),
        ("items ! { a , b } ".to_string(), "each ".to_string(), "".to_string(), "f ".to_string())
    );
    assert_eq!(
        method("for x in match kind { A => a, B => b }.walk() { }"),
        (
            "match kind { A => a , B => b } ".to_string(),
            "walk ".to_string(),
            "".to_string(),
            "".to_string()
        )
    );
}

#[test]
fn body_is_not_judged() {
    let parsed = parse("for x in f() { this is + not ; rust ] [ }".replace("] [", "[ ]").as_str())
        .unwrap();
    assert_eq!(text(&parsed.body.body), "this is + not ; rust [ ] ");
}
