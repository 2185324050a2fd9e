use cbit::relay::{dispatch, EscapeReason, Jump, Replay, Run, Fault};
use cbit::syntax::CbitForExpr;
use cbit::token::{Delimiter, Origin, Token};
use proc_macro2::{Spacing, TokenStream, TokenTree};
use std::ops::ControlFlow;
use std::str::FromStr;

fn lower_runtime(stream: TokenStream, next: &mut usize) -> Vec<Token> {
    let mut out = Vec::new();
    for tree in stream {
        let origin = Origin::Source(*next);
        *next += 1;
        out.push(match tree {
            TokenTree::Group(g) => Token::Group {
                delimiter: match g.delimiter() {
                    proc_macro2::Delimiter::Parenthesis => Delimiter::Parenthesis,
                    proc_macro2::Delimiter::Brace => Delimiter::Brace,
                    proc_macro2::Delimiter::Bracket => Delimiter::Bracket,
                    proc_macro2::Delimiter::None => Delimiter::Invisible,
                },
                inner: lower_runtime(g.stream(), next),
                origin,
            },
            TokenTree::Ident(i) => Token::Ident { name: i.to_string(), origin },
            TokenTree::Punct(p) => {
                Token::Punct { ch: p.as_char(), joint: p.spacing() == Spacing::Joint, origin }
            }
            TokenTree::Literal(l) => Token::Literal { text: l.to_string(), origin },
        });
    }
    out
}

fn loop_of(source: &str) -> CbitForExpr {
    let mut next = 0;
    CbitForExpr::parse(&lower_runtime(TokenStream::from_str(source).unwrap(), &mut next)).unwrap()
}

fn up_to<B>(n: i64, mut f: impl FnMut(i64) -> ControlFlow<B, i64>) -> ControlFlow<B, i64> {
    for i in 0..n {
        f(i)?;
    }
    ControlFlow::Continue(0)
}

fn reduce<B>(
    initial: i32,
    values: &[i32],
    mut f: impl FnMut((i32, i32)) -> ControlFlow<B, i32>,
) -> ControlFlow<B, i32> {
    let mut accum = initial;
    for value in values {
        accum = f((accum, *value))?;
    }
    ControlFlow::Continue(accum)
}

fn plain_break<T>(value: T) -> Jump<T> {
    Jump::Break { label: None, value }
}

fn break_to<T>(label: &str, value: T) -> Jump<T> {
    Jump::Break { label: Some(label.to_string()), value }
}

fn continue_at<T>(label: &str) -> Jump<T> {
    Jump::Continue { label: Some(label.to_string()) }
}

#[test]
fn break_in_up_to_ends_the_iteration_with_its_value() {
    let spec = loop_of("for v in up_to(5) { if v == 3 { break -1 } acc += v }");
    let mut acc = 0;
    let mut delivered = Vec::new();
    let result = up_to(5, |v| {
        delivered.push(v);
        let jump = if v == 3 {
            plain_break(-1)
        } else {
            acc += v;
            Jump::Complete(0)
        };
        spec.relay(jump, 0).unwrap()
    });
    assert_eq!(dispatch(result), Replay::Value(-1));
    assert_eq!(delivered, [0, 1, 2, 3]);
    assert_eq!(acc, 0 + 1 + 2);
}

#[test]
fn reduce_breaks_on_the_first_large_element() {
    let spec = loop_of("for (acc, v) in reduce(0, list) { if v > 100 { break -1 } acc + v }");
    let demo = |list: &[i32]| -> i32 {
        let result = reduce(0, list, |(acc, v)| {
            let jump = if v > 100 { plain_break(-1) } else { Jump::Complete(acc + v) };
            spec.relay(jump, 0).unwrap()
        });
        match dispatch(result) {
            Replay::Value(v) => v,
            other => panic!("{:?}", other),
        }
    };
    assert_eq!(demo(&[1, 2, 3, 4, 101, 8]), -1);
    assert_eq!(demo(&[1, 2, 3]), 6);
    assert_eq!(demo(&[]), 0);
}

#[test]
fn body_that_never_leaves_gives_the_result_of_the_function() {
    let spec = loop_of("for i in up_to(n) { c += i; }");
    let jumps = vec![Jump::Complete(10), Jump::Complete(20), Jump::Complete(30)];
    assert_eq!(
        spec.drive(jumps, 0, 77),
        Ok(Run { delivered: 3, replay: Replay::Value(77) })
    );
    assert_eq!(
        spec.drive(Vec::new(), 0, 77),
        Ok(Run { delivered: 0, replay: Replay::Value(77) })
    );
    assert_eq!(spec.relay(Jump::Complete(20), 0), Ok(ControlFlow::Continue(20)));
}

#[test]
fn return_ends_the_enclosing_function() {
    let spec = loop_of("for i in up_to(n) { c += i; if c > 1000 { return u64::MAX; } }");
    let jumps = vec![Jump::Complete(0), Jump::Return(9), Jump::Complete(0), Jump::Return(7)];
    assert_eq!(spec.drive(jumps, 0, 0), Ok(Run { delivered: 2, replay: Replay::Return(9) }));
    assert_eq!(
        spec.relay(Jump::Return(9), 0),
        Ok(ControlFlow::Break(EscapeReason::EarlyReturn(9)))
    );
    assert_eq!(dispatch(ControlFlow::Break(EscapeReason::EarlyReturn(9))), Replay::Return(9));
}

#[test]
fn continue_goes_on_with_the_default_value() {
    let spec = loop_of("'me: for i in up_to(n) { if i == 2 { continue 'me; } c += i; }");
    assert_eq!(spec.relay(Jump::Continue { label: None }, 5), Ok(ControlFlow::Continue(5)));
    assert_eq!(spec.relay(continue_at("me"), 5), Ok(ControlFlow::Continue(5)));
    let jumps = vec![Jump::Complete(1), continue_at("me"), Jump::Complete(3), plain_break(4)];
    assert_eq!(spec.drive(jumps, 5, 0), Ok(Run { delivered: 4, replay: Replay::Value(4) }));
    let mut c = 0;
    let result: ControlFlow<EscapeReason<i64>, i64> = up_to(5, |i| {
        let jump = if i == 2 {
            continue_at("me")
        } else {
            c += i;
            if c > 5 {
                break_to("me", 0)
            } else {
                Jump::Complete(0)
            }
        };
        spec.relay(jump, 0).unwrap()
    });
    assert_eq!(dispatch(result), Replay::Value(0));
    assert_eq!(c, 1 + 3 + 4);
}

#[test]
fn jumps_to_outer_labels_are_replayed_behind_the_call() {
    let spec = loop_of("for i in up_to(n) break loop 'outer_1, 'outer_2 { }");
    assert_eq!(
        spec.relay(break_to("outer_2", true), false),
        Ok(ControlFlow::Break(EscapeReason::BreakTo("outer_2".to_string(), true)))
    );
    assert_eq!(
        spec.relay(break_to("outer_1", true), false),
        Ok(ControlFlow::Break(EscapeReason::BreakTo("outer_1".to_string(), true)))
    );
    assert_eq!(
        spec.relay(continue_at::<bool>("outer_1"), false),
        Ok(ControlFlow::Break(EscapeReason::ContinueTo("outer_1".to_string())))
    );
    let jumps = vec![Jump::Complete(false), break_to("outer_2", true), Jump::Return(false)];
    assert_eq!(
        spec.drive(jumps, false, false),
        Ok(Run { delivered: 2, replay: Replay::Break("outer_2".to_string(), true) })
    );
    let jumps = vec![continue_at("outer_1"), Jump::Complete(false)];
    assert_eq!(
        spec.drive(jumps, false, false),
        Ok(Run { delivered: 1, replay: Replay::Continue("outer_1".to_string()) })
    );
}

#[test]
fn outer_loop_runs_again_after_continue() {
    let spec = loop_of(
        "for i in up_to(n) break loop 'outer_1, 'outer_2 {
            if i == 5 && c < 20 { continue 'outer_1; }
            if i == 8 { break 'outer_2 c < 10; }
            c += i;
        }",
    );
    let mut c = 0;
    let mut calls = 0;
    'outer_1: loop {
        let something = 'outer_2: {
            calls += 1;
            let result = up_to(10, |i| {
                let jump = if i == 5 && c < 20 {
                    c += 7;
                    continue_at("outer_1")
                } else if i == 8 {
                    break_to("outer_2", if c < 10 { 1 } else { 0 })
                } else {
                    c += i;
                    Jump::Complete(0)
                };
                spec.relay(jump, 0).unwrap()
            });
            match dispatch(result) {
                Replay::Return(v) => panic!("{}", v),
                Replay::Value(_) => {}
                Replay::Break(label, v) => {
                    assert_eq!(label, "outer_2");
                    break 'outer_2 v == 1;
                }
                Replay::Continue(label) => {
                    assert_eq!(label, "outer_1");
                    continue 'outer_1;
                }
            }
            false
        };
        assert!(!something);
        break;
    }
    assert_eq!(calls, 2);
    assert_eq!(c, (0 + 1 + 2 + 3 + 4 + 7) + (0 + 1 + 2 + 3 + 4 + 5 + 6 + 7));
}

#[test]
fn labels_that_nothing_declares_are_not_resolved() {
    let spec = loop_of("'me: for i in up_to(n) break 'blk, loop 'lp { }");
    assert_eq!(spec.relay(break_to("nowhere", 1), 0), Err(Fault::UnknownLabel));
    assert_eq!(spec.relay(continue_at::<i32>("nowhere"), 0), Err(Fault::UnknownLabel));
    assert_eq!(spec.relay(continue_at::<i32>("blk"), 0), Err(Fault::NotALoop));
    assert_eq!(
        spec.relay(continue_at::<i32>("lp"), 0),
        Ok(ControlFlow::Break(EscapeReason::ContinueTo("lp".to_string())))
    );
    let jumps = vec![Jump::Complete(1), continue_at("blk"), Jump::Return(3)];
    assert_eq!(spec.drive(jumps, 0, 0), Err(Fault::NotALoop));
    let jumps = vec![Jump::Return(3), continue_at("blk")];
    assert_eq!(spec.drive(jumps, 0, 0), Ok(Run { delivered: 1, replay: Replay::Return(3) }));
}

#[test]
fn body_that_suspends_by_itself_is_reported() {
    let spec = loop_of("for i in up_to(n) { wait().await; }");
    assert_eq!(spec.relay(Jump::<i32>::Suspend, 0), Err(Fault::Misuse));
    let jumps = vec![Jump::Complete(1), Jump::Suspend, Jump::Return(3)];
    assert_eq!(spec.drive(jumps, 0, 0), Err(Fault::Misuse));
}

#[test]
fn loop_label_shadows_an_outer_label_of_the_same_name() {
    let spec = loop_of("'a: for i in up_to(n) break loop 'a { }");
    assert_eq!(
        spec.relay(break_to("a", 4), 0),
        Ok(ControlFlow::Break(EscapeReason::EarlyBreak(4)))
    );
    assert_eq!(spec.relay(continue_at("a"), 9), Ok(ControlFlow::Continue(9)));
}

#[test]
fn dispatcher_replays_each_reason() {
    assert_eq!(dispatch(ControlFlow::Break(EscapeReason::EarlyReturn(1))), Replay::Return(1));
    assert_eq!(dispatch(ControlFlow::Break(EscapeReason::EarlyBreak(2))), Replay::Value(2));
    assert_eq!(
        dispatch(ControlFlow::Break(EscapeReason::BreakTo("x".to_string(), 3))),
        Replay::Break("x".to_string(), 3)
    );
    assert_eq!(
        dispatch(ControlFlow::<EscapeReason<i32>, i32>::Break(EscapeReason::ContinueTo(
            "y".to_string()
        ))),
        Replay::Continue("y".to_string())
    );
    assert_eq!(dispatch(ControlFlow::<EscapeReason<i32>, i32>::Continue(5)), Replay::Value(5));
}

#[test]
fn sibling_loops_with_the_same_label_do_not_interfere() {
    let first = loop_of("for i in up_to(3) break 'x { }");
    let second = loop_of("'own: for j in other(9) break loop 'y, 'x { }");
    let mut seen = Vec::new();
    let a = 'x: {
        let result = up_to(3, |i| first.relay(break_to("x", i + 10), 0).unwrap());
        match dispatch(result) {
            Replay::Break(label, v) if label == "x" => break 'x v,
            other => panic!("{:?}", other),
        }
    };
    seen.push(a);
    let b = 'x: {
        let result = up_to(3, |i| {
            let jump = if i < 2 { Jump::Complete(0) } else { break_to("x", i + 20) };
            second.relay(jump, 0).unwrap()
        });
        match dispatch(result) {
            Replay::Break(label, v) if label == "x" => break 'x v,
            other => panic!("{:?}", other),
        }
    };
    seen.push(b);
    assert_eq!(seen, [10, 22]);
}
