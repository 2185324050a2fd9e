//! Token trees: the lexical material that the loop grammar reads and that the
//! expansion is made of.

use vstd::prelude::*;

verus! {

/// The bracket kind that encloses a [`Token::Group`].
#[derive(Clone, Copy, PartialEq, Eq, Structural, Debug)]
pub enum Delimiter {
    /// `( ... )`
    Parenthesis,
    /// `{ ... }`
    Brace,
    /// `[ ... ]`
    Bracket,
    /// No visible bracket: the tokens merely stay together.
    Invisible,
}

/// Where a token comes from, which decides how names in it resolve and where
/// diagnostics about it point.
#[derive(Clone, Copy, PartialEq, Eq, Structural, Debug)]
pub enum Origin {
    /// Written by the expansion, resolving as if written at the loop itself.
    CallSite,
    /// Written by the expansion, with local names invisible to the loop body.
    MixedSite,
    /// Written by the user; the number identifies the place in the source.
    Source(usize),
}

/// One token tree.
#[derive(PartialEq, Eq, Debug)]
pub enum Token {
    /// An identifier or keyword.
    Ident { name: String, origin: Origin },
    /// A single punctuation character; `joint` when the next token follows
    /// without a gap and forms one operator with it.
    Punct { ch: char, joint: bool, origin: Origin },
    /// A literal, kept as it was written.
    Literal { text: String, origin: Origin },
    /// A bracketed sequence of token trees.
    Group { delimiter: Delimiter, inner: Vec<Token>, origin: Origin },
}

/// The mathematical value of a [`Token`].
pub enum Tok {
    Ident { name: Seq<char>, origin: Origin },
    Punct { ch: char, joint: bool, origin: Origin },
    Literal { text: Seq<char>, origin: Origin },
    Group { delimiter: Delimiter, inner: Seq<Tok>, origin: Origin },
}

/// The value of one token; a group's value holds the values of its tokens.
pub open spec fn value_of(t: Token) -> Tok
    decreases t,
{
    match t {
        Token::Ident { name, origin } => Tok::Ident { name: name@, origin },
        Token::Punct { ch, joint, origin } => Tok::Punct { ch, joint, origin },
        Token::Literal { text, origin } => Tok::Literal { text: text@, origin },
        Token::Group { delimiter, inner, origin } => Tok::Group {
            delimiter,
            inner: Seq::new(
                inner@.len(),
                |i: int|
                    if 0 <= i < inner@.len() {
                        value_of(inner@[i])
                    } else {
                        arbitrary()
                    },
            ),
            origin,
        },
    }
}

impl View for Token {
    type V = Tok;

    open spec fn view(&self) -> Tok {
        value_of(*self)
    }
}

/// The values of a sequence of tokens, one for one.
pub open spec fn toks(s: Seq<Token>) -> Seq<Tok> {
    Seq::new(s.len(), |i: int| s[i]@)
}

/// A group's value holds the values of the tokens inside it.
pub proof fn lemma_group_view(delimiter: Delimiter, inner: Vec<Token>, origin: Origin)
    ensures
        (Token::Group { delimiter, inner, origin })@ == (Tok::Group {
            delimiter,
            inner: toks(inner@),
            origin,
        }),
{
    let t = Token::Group { delimiter, inner, origin };
    assert(t@->Group_inner =~= toks(inner@));
}

impl Clone for Token {
    fn clone(&self) -> (res: Self)
        ensures
            res@ == self@,
        decreases self,
    {
        match self {
            Token::Ident { name, origin } => Token::Ident { name: name.clone(), origin: *origin },
            Token::Punct { ch, joint, origin } => Token::Punct {
                ch: *ch,
                joint: *joint,
                origin: *origin,
            },
            Token::Literal { text, origin } => Token::Literal {
                text: text.clone(),
                origin: *origin,
            },
            Token::Group { delimiter, inner, origin } => {
                let mut copy: Vec<Token> = Vec::new();
                let mut i: usize = 0;
                while i < inner.len()
                    invariant
                        i <= inner.len(),
                        copy.len() == i,
                        decreases_to!(*self => *inner),
                        forall|j: int| 0 <= j < i ==> copy@[j]@ == inner@[j]@,
                    decreases inner.len() - i,
                {
                    copy.push(inner[i].clone());
                    i += 1;
                }
                proof {
                    lemma_group_view(*delimiter, *inner, *origin);
                    lemma_group_view(*delimiter, copy, *origin);
                    assert(toks(copy@) =~= toks(inner@));
                }
                Token::Group { delimiter: *delimiter, inner: copy, origin: *origin }
            },
        }
    }
}

/// `String::push` appends one character to the end of the string.
pub assume_specification[ String::push ](s: &mut String, ch: char)
    ensures
        final(s)@ == old(s)@.push(ch),
;

/// An identifier written by the expansion or taken from the source.
pub open spec fn ident(name: Seq<char>, origin: Origin) -> Tok {
    Tok::Ident { name, origin }
}

/// A punctuation character that stands alone.
pub open spec fn punct(ch: char) -> Tok {
    Tok::Punct { ch, joint: false, origin: Origin::CallSite }
}

/// A punctuation character that forms one operator with the next token.
pub open spec fn glued(ch: char) -> Tok {
    Tok::Punct { ch, joint: true, origin: Origin::CallSite }
}

/// A literal written by the expansion.
pub open spec fn literal(text: Seq<char>) -> Tok {
    Tok::Literal { text, origin: Origin::CallSite }
}

/// A bracketed group written by the expansion.
pub open spec fn group(delimiter: Delimiter, inner: Seq<Tok>) -> Tok {
    Tok::Group { delimiter, inner, origin: Origin::CallSite }
}

/// A lifetime or label `'name`: an apostrophe glued to an identifier.
pub open spec fn lifetime(name: Seq<char>, origin: Origin) -> Seq<Tok> {
    seq![Tok::Punct { ch: '\'', joint: true, origin }, Tok::Ident { name, origin }]
}

/// Whether `t` is the identifier or keyword `word`, wherever it comes from.
pub open spec fn is_ident(t: Tok, word: Seq<char>) -> bool {
    t matches Tok::Ident { name, .. } && name == word
}

/// Whether `t` is the punctuation character `ch`.
pub open spec fn is_punct(t: Tok, ch: char) -> bool {
    t matches Tok::Punct { ch: c, .. } && c == ch
}

/// Whether `t` is a group in the given brackets.
pub open spec fn is_group(t: Tok, delimiter: Delimiter) -> bool {
    t matches Tok::Group { delimiter: d, .. } && d == delimiter
}

/// Whether a lifetime or label starts at position `i` of `s`.
pub open spec fn lifetime_at(s: Seq<Tok>, i: int) -> bool {
    &&& 0 <= i
    &&& i + 1 < s.len()
    &&& s[i] matches Tok::Punct { ch, joint, .. }
    &&& ch == '\''
    &&& joint
    &&& s[i + 1] is Ident
}

impl Token {
    /// Whether this token is the identifier or keyword `word`.
    pub fn is_ident(&self, word: &str) -> (yes: bool)
        ensures
            yes == is_ident(self@, word@),
    {
        match self {
            Token::Ident { name, .. } => {
                let wanted = String::from_str(word);
                *name == wanted
            },
            _ => false,
        }
    }

    /// Whether this token is the punctuation character `ch`.
    pub fn is_punct(&self, ch: char) -> (yes: bool)
        ensures
            yes == is_punct(self@, ch),
    {
        match self {
            Token::Punct { ch: c, .. } => *c == ch,
            _ => false,
        }
    }

    /// Whether this token is a group in the given brackets.
    pub fn is_group(&self, delimiter: Delimiter) -> (yes: bool)
        ensures
            yes == is_group(self@, delimiter),
    {
        match self {
            Token::Group { delimiter: d, .. } => *d == delimiter,
            _ => false,
        }
    }
}

/// Whether a lifetime or label starts at position `i` of `tokens`.
pub fn lifetime_starts_at(tokens: &Vec<Token>, i: usize) -> (yes: bool)
    ensures
        yes == lifetime_at(toks(tokens@), i as int),
{
    if i < tokens.len() && tokens.len() - i > 1 {
        match (&tokens[i], &tokens[i + 1]) {
            (Token::Punct { ch, joint, .. }, Token::Ident { .. }) => *ch == '\'' && *joint,
            _ => false,
        }
    } else {
        false
    }
}

/// A copy of the tokens from position `from` up to, not including, `to`.
pub fn copy_range(tokens: &Vec<Token>, from: usize, to: usize) -> (piece: Vec<Token>)
    requires
        from <= to <= tokens.len(),
    ensures
        toks(piece@) == toks(tokens@).subrange(from as int, to as int),
{
    let mut piece: Vec<Token> = Vec::new();
    let mut i: usize = from;
    while i < to
        invariant
            from <= i <= to <= tokens.len(),
            toks(piece@) == toks(tokens@).subrange(from as int, i as int),
        decreases to - i,
    {
        let ghost before = piece@;
        piece.push(tokens[i].clone());
        assert(toks(piece@) =~= toks(before).push(tokens@[i as int]@));
        i += 1;
    }
    piece
}

/// Appends a copy of every token of `more` to `out`.
pub fn push_all(out: &mut Vec<Token>, more: &Vec<Token>)
    ensures
        toks(final(out)@) == toks(old(out)@) + toks(more@),
{
    let mut i: usize = 0;
    while i < more.len()
        invariant
            i <= more.len(),
            toks(out@) == toks(old(out)@) + toks(more@).subrange(0, i as int),
        decreases more.len() - i,
    {
        let ghost before = out@;
        out.push(more[i].clone());
        assert(toks(out@) =~= toks(before).push(more@[i as int]@));
        i += 1;
    }
}

/// Appends `token`.
pub fn push_token(out: &mut Vec<Token>, token: Token)
    ensures
        toks(final(out)@) == toks(old(out)@).push(token@),
{
    out.push(token);
}

/// Appends the identifier `name`.
pub fn push_ident(out: &mut Vec<Token>, name: &str, origin: Origin)
    ensures
        toks(final(out)@) == toks(old(out)@).push(ident(name@, origin)),
{
    out.push(Token::Ident { name: String::from_str(name), origin });
}

/// Appends the punctuation character `ch`, standing alone.
pub fn push_punct(out: &mut Vec<Token>, ch: char)
    ensures
        toks(final(out)@) == toks(old(out)@).push(punct(ch)),
{
    out.push(Token::Punct { ch, joint: false, origin: Origin::CallSite });
}

/// Appends the punctuation character `ch`, glued to what follows.
pub fn push_glued(out: &mut Vec<Token>, ch: char)
    ensures
        toks(final(out)@) == toks(old(out)@).push(glued(ch)),
{
    out.push(Token::Punct { ch, joint: true, origin: Origin::CallSite });
}

/// Appends the literal `text`.
pub fn push_literal(out: &mut Vec<Token>, text: &str)
    ensures
        toks(final(out)@) == toks(old(out)@).push(literal(text@)),
{
    out.push(Token::Literal { text: String::from_str(text), origin: Origin::CallSite });
}

/// Appends `inner` as one group in the given brackets.
pub fn push_group(out: &mut Vec<Token>, delimiter: Delimiter, inner: Vec<Token>)
    ensures
        toks(final(out)@) == toks(old(out)@).push(group(delimiter, toks(inner@))),
{
    proof {
        lemma_group_view(delimiter, inner, Origin::CallSite);
    }
    out.push(Token::Group { delimiter, inner, origin: Origin::CallSite });
}

/// Appends the lifetime or label `'name`.
pub fn push_lifetime(out: &mut Vec<Token>, name: &str, origin: Origin)
    ensures
        toks(final(out)@) == toks(old(out)@) + lifetime(name@, origin),
{
    out.push(Token::Punct { ch: '\'', joint: true, origin });
    out.push(Token::Ident { name: String::from_str(name), origin });
}

/// The opening bracket of a group in source text; nothing for an invisible one.
pub open spec fn opening(delimiter: Delimiter) -> Seq<char> {
    match delimiter {
        Delimiter::Parenthesis => seq!['(', ' '],
        Delimiter::Brace => seq!['{', ' '],
        Delimiter::Bracket => seq!['[', ' '],
        Delimiter::Invisible => seq![],
    }
}

/// The closing bracket of a group in source text; nothing for an invisible one.
pub open spec fn closing(delimiter: Delimiter) -> Seq<char> {
    match delimiter {
        Delimiter::Parenthesis => seq![')', ' '],
        Delimiter::Brace => seq!['}', ' '],
        Delimiter::Bracket => seq![']', ' '],
        Delimiter::Invisible => seq![],
    }
}

/// The source text of one token: what was written, then a blank, except that
/// a glued punctuation character runs into the next token.
pub open spec fn token_text(t: Tok) -> Seq<char>
    decreases t, 0nat,
{
    match t {
        Tok::Ident { name, .. } => name.push(' '),
        Tok::Punct { ch, joint, .. } => if joint {
            seq![ch]
        } else {
            seq![ch, ' ']
        },
        Tok::Literal { text, .. } => text.push(' '),
        Tok::Group { delimiter, inner, .. } => opening(delimiter) + source_text(inner) + closing(
            delimiter,
        ),
    }
}

/// The source text of a sequence of tokens: the texts of its tokens in order.
pub open spec fn source_text(s: Seq<Tok>) -> Seq<char>
    decreases s, 1nat,
{
    if s.len() == 0 {
        seq![]
    } else {
        source_text(s.drop_last()) + token_text(s.last())
    }
}

fn write_bracket(out: &mut String, delimiter: Delimiter, open: bool)
    ensures
        final(out)@ == old(out)@ + (if open {
            opening(delimiter)
        } else {
            closing(delimiter)
        }),
{
    let ch = match delimiter {
        Delimiter::Parenthesis => if open {
            '('
        } else {
            ')'
        },
        Delimiter::Brace => if open {
            '{'
        } else {
            '}'
        },
        Delimiter::Bracket => if open {
            '['
        } else {
            ']'
        },
        Delimiter::Invisible => {
            return ;
        },
    };
    out.push(ch);
    out.push(' ');
}

fn write_token(out: &mut String, token: &Token)
    ensures
        final(out)@ == old(out)@ + token_text(token@),
    decreases token, 0nat,
{
    match token {
        Token::Ident { name, .. } => {
            out.append(name.as_str());
            out.push(' ');
        },
        Token::Punct { ch, joint, .. } => {
            out.push(*ch);
            if !*joint {
                out.push(' ');
            }
        },
        Token::Literal { text, .. } => {
            out.append(text.as_str());
            out.push(' ');
        },
        Token::Group { delimiter, inner, origin } => {
            proof {
                lemma_group_view(*delimiter, *inner, *origin);
            }
            write_bracket(out, *delimiter, true);
            write_tokens(out, inner);
            write_bracket(out, *delimiter, false);
        },
    }
}

fn write_tokens(out: &mut String, tokens: &Vec<Token>)
    ensures
        final(out)@ == old(out)@ + source_text(toks(tokens@)),
    decreases tokens, 1nat,
{
    let mut i: usize = 0;
    while i < tokens.len()
        invariant
            i <= tokens.len(),
            out@ == old(out)@ + source_text(toks(tokens@).subrange(0, i as int)),
        decreases tokens.len() - i,
    {
        write_token(out, &tokens[i]);
        proof {
            let next = toks(tokens@).subrange(0, i + 1);
            assert(next.drop_last() =~= toks(tokens@).subrange(0, i as int));
        }
        i += 1;
    }
    assert(toks(tokens@).subrange(0, tokens@.len() as int) =~= toks(tokens@));
}

/// Writes the tokens out as source text.
pub fn render(tokens: &Vec<Token>) -> (text: String)
    ensures
        text@ == source_text(toks(tokens@)),
{
    let mut text = String::new();
    write_tokens(&mut text, tokens);
    text
}

/// Appends the tokens of `piece` to `out`, as they are.
pub fn extend_with(out: &mut Vec<Token>, piece: Vec<Token>)
    ensures
        toks(final(out)@) == toks(old(out)@) + toks(piece@),
{
    let mut piece = piece;
    out.append(&mut piece);
}

} // verus!
