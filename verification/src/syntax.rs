//! The loop grammar and the structured form of one loop.
//!
//! ```text
//! ('label:)? for <pattern> in <call> (break ((loop)? 'label),+)? { <body> }
//! ```
//!
//! The grammar is read from a sequence of token trees. Positions in contracts
//! count the top-level tokens of that sequence.

use crate::subgrammar::{
    accepts_pattern, call_shape_of, classify_call, pattern_accepted, CallShape,
};
use crate::token::{
    copy_range, is_group, is_ident, is_punct, lemma_group_view, lifetime_at, lifetime_starts_at,
    render, source_text, toks, Delimiter, Origin, Tok, Token,
};
use vstd::string::StringExecFns;
use vstd::prelude::*;

verus! {

/// Why a sequence of tokens is not a loop.
#[derive(Clone, Copy, PartialEq, Eq, Structural, Debug)]
pub enum ParseErrorKind {
    /// A loop label is not followed by `:`.
    ExpectedColon,
    /// The keyword `for` is missing.
    ExpectedFor,
    /// No keyword `in` ends the pattern.
    ExpectedIn,
    /// The tokens between `for` and `in` are not one pattern.
    MalformedPattern,
    /// The tokens of the iterator are not an expression.
    MalformedCall,
    /// The iterator is an expression, but neither a function call nor a
    /// method call.
    ExpectedCall,
    /// A label is missing after `break`, after `loop` or after a comma.
    ExpectedLabel,
    /// A label of the break clause was declared before in the same clause.
    DuplicateLabel,
    /// The body in curly braces is missing.
    ExpectedBody,
    /// Tokens follow the body.
    UnexpectedToken,
}

/// A parse error and the position of the top-level token it points at; the
/// number of tokens when it points at the end of the input.
#[derive(Clone, Copy, PartialEq, Eq, Structural, Debug)]
pub struct ParseError {
    pub kind: ParseErrorKind,
    pub at: usize,
}

/// What an error of the given kind says.
pub open spec fn message_of(kind: ParseErrorKind) -> Seq<char> {
    match kind {
        ParseErrorKind::ExpectedColon => "expected `:`"@,
        ParseErrorKind::ExpectedFor => "expected `for`"@,
        ParseErrorKind::ExpectedIn => "expected `in`"@,
        ParseErrorKind::MalformedPattern => "expected a pattern"@,
        ParseErrorKind::MalformedCall => "expected an expression"@,
        ParseErrorKind::ExpectedCall => "expected a function or method call"@,
        ParseErrorKind::ExpectedLabel => "expected a label"@,
        ParseErrorKind::DuplicateLabel => "label declared twice"@,
        ParseErrorKind::ExpectedBody => "expected curly braces"@,
        ParseErrorKind::UnexpectedToken => "unexpected token"@,
    }
}

impl ParseErrorKind {
    /// What an error of this kind says.
    pub fn message(&self) -> (text: String)
        ensures
            text@ == message_of(*self),
    {
        String::from_str(
            match self {
                ParseErrorKind::ExpectedColon => "expected `:`",
                ParseErrorKind::ExpectedFor => "expected `for`",
                ParseErrorKind::ExpectedIn => "expected `in`",
                ParseErrorKind::MalformedPattern => "expected a pattern",
                ParseErrorKind::MalformedCall => "expected an expression",
                ParseErrorKind::ExpectedCall => "expected a function or method call",
                ParseErrorKind::ExpectedLabel => "expected a label",
                ParseErrorKind::DuplicateLabel => "label declared twice",
                ParseErrorKind::ExpectedBody => "expected curly braces",
                ParseErrorKind::UnexpectedToken => "unexpected token",
            },
        )
    }
}

/// A lifetime or label `'name`, without its apostrophe.
#[derive(PartialEq, Eq, Debug)]
pub struct Lifetime {
    pub name: String,
    pub origin: Origin,
}

/// The mathematical value of a [`Lifetime`].
pub struct Label {
    pub name: Seq<char>,
    pub origin: Origin,
}

impl View for Lifetime {
    type V = Label;

    open spec fn view(&self) -> Label {
        Label { name: self.name@, origin: self.origin }
    }
}

impl Clone for Lifetime {
    fn clone(&self) -> (res: Self)
        ensures
            res@ == self@,
    {
        Lifetime { name: self.name.clone(), origin: self.origin }
    }
}

/// One entry of the break clause: a label outside the loop that the body may
/// jump to.
#[derive(PartialEq, Eq, Debug)]
pub struct CbitForExprSingleBreak {
    /// Whether the entry is marked `loop`: the label then takes `continue`
    /// as well as `break`.
    pub kw_loop: bool,
    pub lt: Lifetime,
}

/// The mathematical value of a [`CbitForExprSingleBreak`].
pub struct ExternalLabel {
    pub label: Label,
    pub accepts_continue: bool,
}

impl View for CbitForExprSingleBreak {
    type V = ExternalLabel;

    open spec fn view(&self) -> ExternalLabel {
        ExternalLabel { label: self.lt@, accepts_continue: self.kw_loop }
    }
}

/// The break clause: the keyword `break` and its entries, in the order of
/// declaration.
#[derive(PartialEq, Eq, Debug)]
pub struct CbitForExprBreaks {
    pub lt: Vec<CbitForExprSingleBreak>,
}

/// The values of a sequence of entries, one for one.
pub open spec fn external_labels(entries: Seq<CbitForExprSingleBreak>) -> Seq<ExternalLabel> {
    Seq::new(entries.len(), |i: int| entries[i]@)
}

impl View for CbitForExprBreaks {
    type V = Seq<ExternalLabel>;

    open spec fn view(&self) -> Seq<ExternalLabel> {
        external_labels(self.lt@)
    }
}

/// The body of the loop: the tokens inside its curly braces, never looked into.
#[derive(PartialEq, Eq, Debug)]
pub struct OpaqueBody {
    pub body: Vec<Token>,
}

impl View for OpaqueBody {
    type V = Seq<Tok>;

    open spec fn view(&self) -> Seq<Tok> {
        toks(self.body@)
    }
}

/// The call that iterates, still without the callback that the expansion
/// appends as its last argument.
#[derive(PartialEq, Eq, Debug)]
pub enum AnyCallExpr {
    /// `attrs callee(args)`
    Function { attrs: Vec<Token>, func: Vec<Token>, args: Vec<Token> },
    /// `attrs receiver.method turbofish (args)`
    Method {
        attrs: Vec<Token>,
        receiver: Vec<Token>,
        method: Token,
        turbofish: Vec<Token>,
        args: Vec<Token>,
    },
}

/// The mathematical value of an [`AnyCallExpr`].
pub enum SourceCall {
    FreeCall { attrs: Seq<Tok>, callee: Seq<Tok>, args: Seq<Tok> },
    MethodCall {
        attrs: Seq<Tok>,
        receiver: Seq<Tok>,
        method: Tok,
        type_args: Seq<Tok>,
        args: Seq<Tok>,
    },
}

impl View for AnyCallExpr {
    type V = SourceCall;

    open spec fn view(&self) -> SourceCall {
        match self {
            AnyCallExpr::Function { attrs, func, args } => SourceCall::FreeCall {
                attrs: toks(attrs@),
                callee: toks(func@),
                args: toks(args@),
            },
            AnyCallExpr::Method { attrs, receiver, method, turbofish, args } => {
                SourceCall::MethodCall {
                    attrs: toks(attrs@),
                    receiver: toks(receiver@),
                    method: method@,
                    type_args: toks(turbofish@),
                    args: toks(args@),
                }
            },
        }
    }
}

/// One loop in structured form.
#[derive(PartialEq, Eq, Debug)]
pub struct CbitForExpr {
    /// The label of the loop itself.
    pub label: Option<Lifetime>,
    /// The pattern that binds each element.
    pub body_pattern: Vec<Token>,
    /// The call that iterates.
    pub call: AnyCallExpr,
    /// The labels outside the loop that the body may jump to.
    pub breaks: Option<CbitForExprBreaks>,
    /// The body.
    pub body: OpaqueBody,
}

/// The mathematical value of a [`CbitForExpr`].
pub struct LoopSpec {
    pub loop_label: Option<Label>,
    pub binding: Seq<Tok>,
    pub source_call: SourceCall,
    pub escape_labels: Seq<ExternalLabel>,
    pub body: Seq<Tok>,
}

impl View for CbitForExpr {
    type V = LoopSpec;

    open spec fn view(&self) -> LoopSpec {
        LoopSpec {
            loop_label: match self.label {
                Some(l) => Some(l@),
                None => None,
            },
            binding: toks(self.body_pattern@),
            source_call: self.call@,
            escape_labels: match self.breaks {
                Some(b) => b@,
                None => Seq::empty(),
            },
            body: self.body@,
        }
    }
}

impl CbitForExpr {
    /// A break clause, where there is one, declares at least one label, and
    /// none twice.
    pub open spec fn wf(&self) -> bool {
        &&& self.breaks matches Some(b) ==> b.lt.len() > 0
        &&& distinct(self@.escape_labels)
    }
}

/// The error of the given kind at position `at`.
pub open spec fn fail<T>(kind: ParseErrorKind, at: int) -> Result<T, ParseError> {
    Err(ParseError { kind, at: at as usize })
}

/// The label that starts at position `at` of `s`.
pub open spec fn label_at(s: Seq<Tok>, at: int) -> Label {
    Label { name: s[at + 1]->name, origin: s[at + 1]->Ident_origin }
}

/// The first position from `from` on at which `s` holds the keyword `word`;
/// the length of `s` where there is none.
pub open spec fn first_ident(s: Seq<Tok>, from: int, word: Seq<char>) -> int
    decreases s.len() - from,
{
    if from < 0 || from >= s.len() {
        s.len() as int
    } else if is_ident(s[from], word) {
        from
    } else {
        first_ident(s, from + 1, word)
    }
}

/// `first_ident` is the least position from `from` on that holds `word`.
pub proof fn lemma_first_ident(s: Seq<Tok>, from: int, word: Seq<char>)
    requires
        0 <= from <= s.len(),
    ensures
        from <= first_ident(s, from, word) <= s.len(),
        first_ident(s, from, word) < s.len() ==> is_ident(s[first_ident(s, from, word)], word),
        forall|j: int| from <= j < first_ident(s, from, word) ==> !is_ident(s[j], word),
    decreases s.len() - from,
{
    if from < s.len() && !is_ident(s[from], word) {
        lemma_first_ident(s, from + 1, word);
    }
}

/// The first position from `from` on at which `labels` declares `name`; the
/// length of `labels` where none does.
pub open spec fn first_named(labels: Seq<ExternalLabel>, name: Seq<char>, from: int) -> int
    decreases labels.len() - from,
{
    if from < 0 || from >= labels.len() {
        labels.len() as int
    } else if labels[from].label.name == name {
        from
    } else {
        first_named(labels, name, from + 1)
    }
}

/// `first_named` is the least position from `from` on that declares `name`.
pub proof fn lemma_first_named(labels: Seq<ExternalLabel>, name: Seq<char>, from: int)
    requires
        0 <= from <= labels.len(),
    ensures
        from <= first_named(labels, name, from) <= labels.len(),
        first_named(labels, name, from) < labels.len() ==> labels[first_named(
            labels,
            name,
            from,
        )].label.name == name,
        forall|j: int| from <= j < first_named(labels, name, from) ==> labels[j].label.name != name,
    decreases labels.len() - from,
{
    if from < labels.len() && labels[from].label.name != name {
        lemma_first_named(labels, name, from + 1);
    }
}

/// Whether no two of the labels have the same name.
pub open spec fn distinct(labels: Seq<ExternalLabel>) -> bool {
    forall|i: int, j: int|
        0 <= i < j < labels.len() ==> labels[i].label.name != labels[j].label.name
}

/// One entry of the break clause read at `pos`: an optional `loop`, then a
/// label. Gives the entry and the position behind it.
pub open spec fn single_break(s: Seq<Tok>, pos: int) -> Result<(ExternalLabel, int), ParseError> {
    let marked = 0 <= pos < s.len() && is_ident(s[pos], "loop"@);
    let at = if marked {
        pos + 1
    } else {
        pos
    };
    if lifetime_at(s, at) {
        Ok((ExternalLabel { label: label_at(s, at), accepts_continue: marked }, at + 2))
    } else {
        fail(ParseErrorKind::ExpectedLabel, at)
    }
}

/// The entries of a break clause read from `pos` on, after the entries `seen`:
/// one entry, and another after every comma. No label is declared twice.
pub open spec fn break_entries(s: Seq<Tok>, pos: int, seen: Seq<ExternalLabel>) -> Result<
    (Seq<ExternalLabel>, int),
    ParseError,
>
    decreases s.len() - pos,
{
    match single_break(s, pos) {
        Err(e) => Err(e),
        Ok((entry, next)) => if first_named(seen, entry.label.name, 0) < seen.len() {
            fail(ParseErrorKind::DuplicateLabel, next - 2)
        } else if pos < next < s.len() && is_punct(s[next], ',') {
            break_entries(s, next + 1, seen.push(entry))
        } else {
            Ok((seen.push(entry), next))
        },
    }
}

/// The break clause read at `pos`: nothing where the keyword `break` is not
/// there, else the keyword and at least one entry.
pub open spec fn break_clause(s: Seq<Tok>, pos: int) -> Result<
    (Option<Seq<ExternalLabel>>, int),
    ParseError,
> {
    if 0 <= pos < s.len() && is_ident(s[pos], "break"@) {
        match break_entries(s, pos + 1, Seq::empty()) {
            Err(e) => Err(e),
            Ok((entries, next)) => Ok((Some(entries), next)),
        }
    } else {
        Ok((None, pos))
    }
}

/// The body read at `pos`: one group in curly braces. Gives the tokens inside
/// and the position behind the group.
pub open spec fn body_at(s: Seq<Tok>, pos: int) -> Result<(Seq<Tok>, int), ParseError> {
    if 0 <= pos < s.len() && is_group(s[pos], Delimiter::Brace) {
        Ok((s[pos]->inner, pos + 1))
    } else {
        fail(ParseErrorKind::ExpectedBody, pos)
    }
}

impl CbitForExprSingleBreak {
    /// Reads one entry of the break clause at `pos`.
    pub fn parse(tokens: &Vec<Token>, pos: usize) -> (r: Result<(Self, usize), ParseError>)
        ensures
            match r {
                Ok((entry, next)) => single_break(toks(tokens@), pos as int) == Ok::<
                    (ExternalLabel, int),
                    ParseError,
                >((entry@, next as int)),
                Err(e) => single_break(toks(tokens@), pos as int) == Err::<
                    (ExternalLabel, int),
                    ParseError,
                >(e),
            },
    {
        let marked = pos < tokens.len() && tokens[pos].is_ident("loop");
        let at: usize = if marked {
            pos + 1
        } else {
            pos
        };
        if lifetime_starts_at(tokens, at) {
            match &tokens[at + 1] {
                Token::Ident { name, origin } => {
                    let lt = Lifetime { name: name.clone(), origin: *origin };
                    Ok((CbitForExprSingleBreak { kw_loop: marked, lt }, at + 2))
                },
                _ => Err(ParseError { kind: ParseErrorKind::ExpectedLabel, at }),
            }
        } else {
            Err(ParseError { kind: ParseErrorKind::ExpectedLabel, at })
        }
    }
}

/// The first position at which `entries` declare the label `name`; their
/// number where none does.
pub fn find_named(entries: &Vec<CbitForExprSingleBreak>, name: &String) -> (at: usize)
    ensures
        at == first_named(external_labels(entries@), name@, 0),
        at <= entries.len(),
{
    let mut i: usize = 0;
    while i < entries.len()
        invariant
            i <= entries.len(),
            first_named(external_labels(entries@), name@, 0) == first_named(
                external_labels(entries@),
                name@,
                i as int,
            ),
        decreases entries.len() - i,
    {
        if entries[i].lt.name == *name {
            return i;
        }
        i += 1;
    }
    entries.len()
}

impl CbitForExprBreaks {
    /// Reads the break clause at `pos`, if the keyword `break` stands there.
    pub fn parse(tokens: &Vec<Token>, pos: usize) -> (r: Result<(Option<Self>, usize), ParseError>)
        ensures
            match r {
                Ok((Some(clause), next)) => break_clause(toks(tokens@), pos as int) == Ok::<
                    (Option<Seq<ExternalLabel>>, int),
                    ParseError,
                >((Some(clause@), next as int)) && clause.lt.len() > 0 && distinct(clause@),
                Ok((None, next)) => break_clause(toks(tokens@), pos as int) == Ok::<
                    (Option<Seq<ExternalLabel>>, int),
                    ParseError,
                >((None, next as int)),
                Err(e) => break_clause(toks(tokens@), pos as int) == Err::<
                    (Option<Seq<ExternalLabel>>, int),
                    ParseError,
                >(e),
            },
    {
        if !(pos < tokens.len() && tokens[pos].is_ident("break")) {
            return Ok((None, pos));
        }
        let ghost s = toks(tokens@);
        let mut entries: Vec<CbitForExprSingleBreak> = Vec::new();
        let mut at: usize = pos + 1;
        assert(external_labels(entries@) =~= Seq::<ExternalLabel>::empty());
        loop
            invariant
                s == toks(tokens@),
                pos < at <= tokens.len(),
                is_ident(s[pos as int], "break"@),
                distinct(external_labels(entries@)),
                break_entries(s, pos + 1, Seq::empty()) == break_entries(
                    s,
                    at as int,
                    external_labels(entries@),
                ),
            decreases tokens.len() - at,
        {
            match CbitForExprSingleBreak::parse(tokens, at) {
                Err(e) => {
                    return Err(e);
                },
                Ok((entry, next)) => {
                    let ghost before = entries@;
                    if find_named(&entries, &entry.lt.name) < entries.len() {
                        return Err(
                            ParseError { kind: ParseErrorKind::DuplicateLabel, at: next - 2 },
                        );
                    }
                    proof {
                        lemma_first_named(external_labels(before), entry@.label.name, 0);
                    }
                    entries.push(entry);
                    assert(external_labels(entries@) =~= external_labels(before).push(entry@));
                    if next < tokens.len() && tokens[next].is_punct(',') {
                        at = next + 1;
                    } else {
                        return Ok((Some(CbitForExprBreaks { lt: entries }), next));
                    }
                },
            }
        }
    }
}

impl OpaqueBody {
    /// Reads the body at `pos`: a group in curly braces, taken as it is.
    pub fn parse(tokens: &Vec<Token>, pos: usize) -> (r: Result<(Self, usize), ParseError>)
        ensures
            match r {
                Ok((body, next)) => body_at(toks(tokens@), pos as int) == Ok::<
                    (Seq<Tok>, int),
                    ParseError,
                >((body@, next as int)),
                Err(e) => body_at(toks(tokens@), pos as int) == Err::<(Seq<Tok>, int), ParseError>(
                    e,
                ),
            },
    {
        if pos < tokens.len() {
            match &tokens[pos] {
                Token::Group { delimiter: Delimiter::Brace, inner, origin } => {
                    proof {
                        lemma_group_view(Delimiter::Brace, *inner, *origin);
                    }
                    let body = copy_range(inner, 0, inner.len());
                    assert(toks(inner@).subrange(0, inner@.len() as int) =~= toks(inner@));
                    return Ok((OpaqueBody { body }, pos + 1));
                },
                _ => {},
            }
        }
        Err(ParseError { kind: ParseErrorKind::ExpectedBody, at: pos })
    }
}

/// How many tokens at the start of `c`, counted from `k` on, are attributes:
/// pairs of `#` and a group in square brackets.
pub open spec fn attr_prefix(c: Seq<Tok>, k: int) -> int
    decreases c.len() - k,
{
    if 0 <= k && k + 1 < c.len() && is_punct(c[k], '#') && is_group(c[k + 1], Delimiter::Bracket) {
        attr_prefix(c, k + 2)
    } else {
        k
    }
}

/// The attributes at the start of `c` are a part of `c`, made of pairs.
pub proof fn lemma_attr_prefix(c: Seq<Tok>, k: int)
    requires
        0 <= k <= c.len(),
    ensures
        k <= attr_prefix(c, k) <= c.len(),
        forall|j: int|
            k <= j < attr_prefix(c, k) ==> is_punct(#[trigger] c[j], '#') || is_group(
                c[j],
                Delimiter::Bracket,
            ),
    decreases c.len() - k,
{
    if k + 1 < c.len() && is_punct(c[k], '#') && is_group(c[k + 1], Delimiter::Bracket) {
        lemma_attr_prefix(c, k + 2);
    }
}

/// The last position before `below` at which `c` holds a `.`; -1 where there
/// is none.
pub open spec fn last_dot(c: Seq<Tok>, below: int) -> int
    decreases below,
{
    if below <= 0 || below > c.len() {
        -1
    } else if is_punct(c[below - 1], '.') {
        below - 1
    } else {
        last_dot(c, below - 1)
    }
}

/// `last_dot` is the greatest position before `below` that holds a `.`.
pub proof fn lemma_last_dot(c: Seq<Tok>, below: int)
    requires
        0 <= below <= c.len(),
    ensures
        -1 <= last_dot(c, below) < below,
        last_dot(c, below) >= 0 ==> is_punct(c[last_dot(c, below)], '.'),
        forall|j: int| last_dot(c, below) < j < below ==> !is_punct(c[j], '.'),
    decreases below,
{
    if below > 0 && !is_punct(c[below - 1], '.') {
        lemma_last_dot(c, below - 1);
    }
}

/// The parts of the call `c`, given the shape that the expression grammar
/// finds in it.
///
/// Leading attributes are set apart. The last token is the argument list in
/// parentheses. What stands between is the callee of a function call; of a
/// method call it is the receiver, the last `.`, the method's name and its
/// type arguments.
pub open spec fn source_call(c: Seq<Tok>, shape: CallShape) -> Result<SourceCall, ParseErrorKind> {
    let k = attr_prefix(c, 0);
    let end = c.len() - 1;
    let dot = last_dot(c, end);
    match shape {
        CallShape::Malformed => Err(ParseErrorKind::MalformedCall),
        CallShape::Other => Err(ParseErrorKind::ExpectedCall),
        CallShape::Function => if k < end && is_group(c[end], Delimiter::Parenthesis) {
            Ok(
                SourceCall::FreeCall {
                    attrs: c.subrange(0, k),
                    callee: c.subrange(k, end),
                    args: c[end]->inner,
                },
            )
        } else {
            Err(ParseErrorKind::ExpectedCall)
        },
        CallShape::Method => if k < dot && dot + 1 < end && c[dot + 1] is Ident && is_group(
            c[end],
            Delimiter::Parenthesis,
        ) {
            Ok(
                SourceCall::MethodCall {
                    attrs: c.subrange(0, k),
                    receiver: c.subrange(k, dot),
                    method: c[dot + 1],
                    type_args: c.subrange(dot + 2, end),
                    args: c[end]->inner,
                },
            )
        } else {
            Err(ParseErrorKind::ExpectedCall)
        },
    }
}

fn count_attrs(call: &Vec<Token>) -> (k: usize)
    ensures
        k == attr_prefix(toks(call@), 0),
        k <= call.len(),
{
    let mut k: usize = 0;
    while k < call.len() && call.len() - k > 1 && call[k].is_punct('#') && call[k + 1].is_group(
        Delimiter::Bracket,
    )
        invariant
            k <= call.len(),
            attr_prefix(toks(call@), 0) == attr_prefix(toks(call@), k as int),
        decreases call.len() - k,
    {
        k += 2;
    }
    k
}

fn find_last_dot(call: &Vec<Token>, below: usize) -> (found: Option<usize>)
    requires
        below <= call.len(),
    ensures
        match found {
            Some(d) => d == last_dot(toks(call@), below as int),
            None => last_dot(toks(call@), below as int) == -1,
        },
{
    let mut n: usize = below;
    while n > 0
        invariant
            n <= below <= call.len(),
            last_dot(toks(call@), below as int) == last_dot(toks(call@), n as int),
        decreases n,
    {
        if call[n - 1].is_punct('.') {
            return Some(n - 1);
        }
        n -= 1;
    }
    None
}

fn is_identifier(token: &Token) -> (yes: bool)
    ensures
        yes == (token@ is Ident),
{
    match token {
        Token::Ident { .. } => true,
        _ => false,
    }
}

fn arguments_of(token: &Token) -> (args: Option<Vec<Token>>)
    ensures
        match args {
            Some(inner) => is_group(token@, Delimiter::Parenthesis) && toks(inner@)
                == token@->inner,
            None => !is_group(token@, Delimiter::Parenthesis),
        },
{
    match token {
        Token::Group { delimiter: Delimiter::Parenthesis, inner, .. } => Some(
            copy_range(inner, 0, inner.len()),
        ),
        _ => None,
    }
}

impl AnyCallExpr {
    /// Splits the call `call` into its parts, given the shape that the
    /// expression grammar finds in it.
    pub fn from_shape(call: &Vec<Token>, shape: CallShape) -> (r: Result<Self, ParseErrorKind>)
        ensures
            match r {
                Ok(parts) => source_call(toks(call@), shape) == Ok::<SourceCall, ParseErrorKind>(
                    parts@,
                ),
                Err(kind) => source_call(toks(call@), shape) == Err::<SourceCall, ParseErrorKind>(
                    kind,
                ),
            },
    {
        match shape {
            CallShape::Malformed => {
                return Err(ParseErrorKind::MalformedCall);
            },
            CallShape::Other => {
                return Err(ParseErrorKind::ExpectedCall);
            },
            _ => {},
        }
        let k = count_attrs(call);
        if call.len() == 0 || k >= call.len() - 1 {
            return Err(ParseErrorKind::ExpectedCall);
        }
        let end = call.len() - 1;
        let args = match arguments_of(&call[end]) {
            Some(args) => args,
            None => {
                return Err(ParseErrorKind::ExpectedCall);
            },
        };
        let attrs = copy_range(call, 0, k);
        match shape {
            CallShape::Function => {
                let func = copy_range(call, k, end);
                Ok(AnyCallExpr::Function { attrs, func, args })
            },
            _ => {
                let dot = match find_last_dot(call, end) {
                    Some(dot) => dot,
                    None => {
                        return Err(ParseErrorKind::ExpectedCall);
                    },
                };
                proof {
                    lemma_last_dot(toks(call@), end as int);
                }
                if k < dot && end - dot > 1 && is_identifier(&call[dot + 1]) {
                    let receiver = copy_range(call, k, dot);
                    let method = call[dot + 1].clone();
                    let turbofish = copy_range(call, dot + 2, end);
                    Ok(AnyCallExpr::Method { attrs, receiver, method, turbofish, args })
                } else {
                    Err(ParseErrorKind::ExpectedCall)
                }
            },
        }
    }

    /// Reads `call` as the call that iterates: a function call or a method
    /// call, as the expression grammar of the host language sees it.
    pub fn parse(call: &Vec<Token>) -> (r: Result<Self, ParseErrorKind>)
        ensures
            match r {
                Ok(parts) => source_call(
                    toks(call@),
                    call_shape_of(source_text(toks(call@))),
                ) == Ok::<SourceCall, ParseErrorKind>(parts@),
                Err(kind) => source_call(
                    toks(call@),
                    call_shape_of(source_text(toks(call@))),
                ) == Err::<SourceCall, ParseErrorKind>(kind),
            },
    {
        let source = render(call);
        let shape = classify_call(source.as_str());
        AnyCallExpr::from_shape(call, shape)
    }
}

/// The start of a loop: its label, and where its pattern stands.
pub struct Header {
    pub label: Option<Label>,
    /// The position of the first token of the pattern.
    pub pattern_from: int,
    /// The position of the keyword `in`, which ends the pattern.
    pub pattern_to: int,
}

/// The start of the loop `s`: an optional label with its colon, the keyword
/// `for`, and the pattern, which runs up to the first `in`.
pub open spec fn header(s: Seq<Tok>) -> Result<Header, ParseError> {
    let labelled = lifetime_at(s, 0);
    let at_for: int = if labelled {
        3
    } else {
        0
    };
    let at_in = first_ident(s, at_for + 1, "in"@);
    if labelled && !(2 < s.len() && is_punct(s[2], ':')) {
        fail(ParseErrorKind::ExpectedColon, 2)
    } else if !(at_for < s.len() && is_ident(s[at_for], "for"@)) {
        fail(ParseErrorKind::ExpectedFor, at_for)
    } else if at_in >= s.len() {
        fail(ParseErrorKind::ExpectedIn, s.len() as int)
    } else {
        Ok(
            Header {
                label: if labelled {
                    Some(label_at(s, 0))
                } else {
                    None
                },
                pattern_from: at_for + 1,
                pattern_to: at_in,
            },
        )
    }
}

/// Where the call that starts at `from` ends: at the keyword `break` where
/// there is one, else at the body, which is then the last token.
pub open spec fn call_end(s: Seq<Tok>, from: int) -> int {
    let at_break = first_ident(s, from, "break"@);
    if at_break < s.len() {
        at_break
    } else if from < s.len() && is_group(s.last(), Delimiter::Brace) {
        s.len() - 1
    } else {
        s.len() as int
    }
}

/// The tokens of the pattern of the loop `s`; none where `s` has no header.
pub open spec fn pattern_tokens(s: Seq<Tok>) -> Seq<Tok> {
    match header(s) {
        Ok(h) => s.subrange(h.pattern_from, h.pattern_to),
        Err(_) => Seq::empty(),
    }
}

/// The tokens of the call of the loop `s`; none where `s` has no header.
pub open spec fn call_tokens(s: Seq<Tok>) -> Seq<Tok> {
    match header(s) {
        Ok(h) => s.subrange(h.pattern_to + 1, call_end(s, h.pattern_to + 1)),
        Err(_) => Seq::empty(),
    }
}

/// The loop that the tokens `s` spell, or the leftmost reason why they spell
/// none, given what the pattern grammar says of the pattern's tokens and what
/// the expression grammar says of the call's tokens.
pub open spec fn parsed_loop(s: Seq<Tok>, pattern_ok: bool, shape: CallShape) -> Result<
    LoopSpec,
    ParseError,
> {
    match header(s) {
        Err(e) => Err(e),
        Ok(h) => {
            let from = h.pattern_to + 1;
            let to = call_end(s, from);
            if !pattern_ok {
                fail(ParseErrorKind::MalformedPattern, h.pattern_from)
            } else {
                match source_call(s.subrange(from, to), shape) {
                    Err(kind) => fail(kind, from),
                    Ok(call) => match break_clause(s, to) {
                        Err(e) => Err(e),
                        Ok((clause, at_body)) => match body_at(s, at_body) {
                            Err(e) => Err(e),
                            Ok((body, end)) => if end != s.len() {
                                fail(ParseErrorKind::UnexpectedToken, end)
                            } else {
                                Ok(
                                    LoopSpec {
                                        loop_label: h.label,
                                        binding: s.subrange(h.pattern_from, h.pattern_to),
                                        source_call: call,
                                        escape_labels: match clause {
                                            Some(entries) => entries,
                                            None => Seq::empty(),
                                        },
                                        body,
                                    },
                                )
                            },
                        },
                    },
                }
            }
        },
    }
}

fn find_ident(tokens: &Vec<Token>, from: usize, word: &str) -> (at: usize)
    ensures
        at == first_ident(toks(tokens@), from as int, word@),
        from <= tokens.len() ==> from <= at <= tokens.len(),
{
    let mut i: usize = from;
    while i < tokens.len()
        invariant
            from <= i,
            first_ident(toks(tokens@), from as int, word@) == first_ident(
                toks(tokens@),
                i as int,
                word@,
            ),
        decreases tokens.len() - i,
    {
        if tokens[i].is_ident(word) {
            return i;
        }
        i += 1;
    }
    tokens.len()
}

/// The label, the first position of the pattern and the position of `in`.
fn read_header(tokens: &Vec<Token>) -> (r: Result<(Option<Lifetime>, usize, usize), ParseError>)
    ensures
        match r {
            Ok((label, from, to)) => header(toks(tokens@)) == Ok::<Header, ParseError>(
                Header {
                    label: match label {
                        Some(l) => Some(l@),
                        None => None,
                    },
                    pattern_from: from as int,
                    pattern_to: to as int,
                },
            ) && from <= to < tokens.len(),
            Err(e) => header(toks(tokens@)) == Err::<Header, ParseError>(e),
        },
{
    let labelled = lifetime_starts_at(tokens, 0);
    let at_for: usize = if labelled {
        3
    } else {
        0
    };
    if labelled && !(2 < tokens.len() && tokens[2].is_punct(':')) {
        return Err(ParseError { kind: ParseErrorKind::ExpectedColon, at: 2 });
    }
    if !(at_for < tokens.len() && tokens[at_for].is_ident("for")) {
        return Err(ParseError { kind: ParseErrorKind::ExpectedFor, at: at_for });
    }
    let at_in = find_ident(tokens, at_for + 1, "in");
    if at_in >= tokens.len() {
        return Err(ParseError { kind: ParseErrorKind::ExpectedIn, at: tokens.len() });
    }
    let label = if labelled {
        match &tokens[1] {
            Token::Ident { name, origin } => Some(Lifetime { name: name.clone(), origin: *origin }),
            _ => None,
        }
    } else {
        None
    };
    Ok((label, at_for + 1, at_in))
}

fn find_call_end(tokens: &Vec<Token>, from: usize) -> (to: usize)
    requires
        from <= tokens.len(),
    ensures
        to == call_end(toks(tokens@), from as int),
        from <= to <= tokens.len(),
{
    let at_break = find_ident(tokens, from, "break");
    if at_break < tokens.len() {
        at_break
    } else if from < tokens.len() && tokens[tokens.len() - 1].is_group(Delimiter::Brace) {
        tokens.len() - 1
    } else {
        tokens.len()
    }
}

impl CbitForExpr {
    /// Builds the loop that `tokens` spell, given what the pattern grammar
    /// says of the pattern's tokens and what the expression grammar says of
    /// the call's tokens.
    pub fn assemble(tokens: &Vec<Token>, pattern_ok: bool, shape: CallShape) -> (r: Result<
        Self,
        ParseError,
    >)
        ensures
            match r {
                Ok(parsed) => parsed_loop(toks(tokens@), pattern_ok, shape) == Ok::<
                    LoopSpec,
                    ParseError,
                >(parsed@) && parsed.wf(),
                Err(e) => parsed_loop(toks(tokens@), pattern_ok, shape) == Err::<
                    LoopSpec,
                    ParseError,
                >(e),
            },
    {
        let (label, pattern_from, pattern_to) = match read_header(tokens) {
            Ok(found) => found,
            Err(e) => {
                return Err(e);
            },
        };
        if !pattern_ok {
            return Err(ParseError { kind: ParseErrorKind::MalformedPattern, at: pattern_from });
        }
        let from = pattern_to + 1;
        let to = find_call_end(tokens, from);
        let call_part = copy_range(tokens, from, to);
        let call = match AnyCallExpr::from_shape(&call_part, shape) {
            Ok(call) => call,
            Err(kind) => {
                return Err(ParseError { kind, at: from });
            },
        };
        let (breaks, at_body) = match CbitForExprBreaks::parse(tokens, to) {
            Ok(found) => found,
            Err(e) => {
                return Err(e);
            },
        };
        let (body, end) = match OpaqueBody::parse(tokens, at_body) {
            Ok(found) => found,
            Err(e) => {
                return Err(e);
            },
        };
        if end != tokens.len() {
            return Err(ParseError { kind: ParseErrorKind::UnexpectedToken, at: end });
        }
        let body_pattern = copy_range(tokens, pattern_from, pattern_to);
        Ok(CbitForExpr { label, body_pattern, call, breaks, body })
    }

    /// Reads `tokens` as one loop. All of them must belong to it.
    ///
    /// The pattern and the call are judged by the grammar of the host
    /// language; everything else is decided here.
    pub fn parse(tokens: &Vec<Token>) -> (r: Result<Self, ParseError>)
        ensures
            match r {
                Ok(parsed) => parsed_loop(
                    toks(tokens@),
                    pattern_accepted(source_text(pattern_tokens(toks(tokens@)))),
                    call_shape_of(source_text(call_tokens(toks(tokens@)))),
                ) == Ok::<LoopSpec, ParseError>(parsed@) && parsed.wf(),
                Err(e) => parsed_loop(
                    toks(tokens@),
                    pattern_accepted(source_text(pattern_tokens(toks(tokens@)))),
                    call_shape_of(source_text(call_tokens(toks(tokens@)))),
                ) == Err::<LoopSpec, ParseError>(e),
            },
    {
        let (pattern_from, pattern_to) = match read_header(tokens) {
            Ok((_, from, to)) => (from, to),
            Err(e) => {
                return Err(e);
            },
        };
        let pattern = render(&copy_range(tokens, pattern_from, pattern_to));
        let pattern_ok = accepts_pattern(pattern.as_str());
        let from = pattern_to + 1;
        let call = render(&copy_range(tokens, from, find_call_end(tokens, from)));
        let shape = classify_call(call.as_str());
        CbitForExpr::assemble(tokens, pattern_ok, shape)
    }
}

} // verus!
