//! Tokens: the pieces that a source text is cut into, each with its kind and
//! its place in the text.

use crate::interner::{first_index_of, intern, StringInterner, Symbol};
use vstd::prelude::*;
use vstd::string::{StrSliceExecFns, StringExecFns};

verus! {

/// The character that stands for the character behind a backslash: a
/// newline for `n`, a tab for `t`, and any other character for itself.
pub open spec fn escape(c: char) -> char {
    if c == 'n' {
        '\n'
    } else if c == 't' {
        '\t'
    } else {
        c
    }
}

/// The name that the text of a symbol spells: a backslash and the character
/// behind it spell one character, a bar spells nothing, and every other
/// character spells itself. A backslash at the very end spells nothing.
pub open spec fn unescaped(text: Seq<char>) -> Seq<char>
    decreases text.len(),
{
    if text.len() == 0 {
        Seq::empty()
    } else if text[0] == '\\' {
        if text.len() == 1 {
            Seq::empty()
        } else {
            seq![escape(text[1])] + unescaped(text.skip(2))
        }
    } else if text[0] == '|' {
        unescaped(text.skip(1))
    } else {
        seq![text[0]] + unescaped(text.skip(1))
    }
}

/// The place of a token in the text, in characters: from `start` up to, but
/// not including, `end`.
#[derive(Copy, Clone, Debug, PartialEq, Eq, Structural)]
pub struct Index {
    pub start: usize,
    pub end: usize,
}

impl Index {
    /// The place that begins one character before `start` and ends before
    /// `end`: a scanner that has just read the first character of a token
    /// stands at `start`.
    pub fn new(start: usize, end: usize) -> (index: Self)
        requires
            start >= 1,
        ensures
            index.start == start - 1,
            index.end == end,
    {
        Index { start: start - 1, end }
    }

    /// Whether the place lies within a text of `len` characters.
    pub open spec fn fits(self, len: nat) -> bool {
        self.start <= self.end <= len
    }

    /// The characters at the place.
    pub open spec fn of(self, text: Seq<char>) -> Seq<char> {
        text.subrange(self.start as int, self.end as int)
    }
}

/// A token: its kind and its place in the text.
#[derive(Copy, Clone, Debug, PartialEq, Eq, Structural)]
pub enum Token {
    /// `(`
    LParen(Index),
    /// `)`
    RParen(Index),
    /// `{`
    LBrace(Index),
    /// `}`
    RBrace(Index),
    /// `[`
    LSBracket(Index),
    /// `]`
    RSBracket(Index),
    /// `<`
    LABracket(Index),
    /// `>`
    RABracket(Index),
    /// A comment that runs to the end of its line.
    Comment(Index),
    /// A comment between `#|` and `|#`.
    BlockComment(Index),
    /// `#`, which begins a literal.
    Pound(Index),
    /// A string literal with its quotes.
    String(Index),
    /// A character literal.
    Char(Index),
    /// A whole number.
    Integer(Index),
    /// A number with a fraction or an exponent.
    Float(Index),
    /// A name.
    Symbol(Index),
}

impl Token {
    /// The place of the token in the text.
    pub open spec fn place(self) -> Index {
        match self {
            Token::LParen(i) => i,
            Token::RParen(i) => i,
            Token::LBrace(i) => i,
            Token::RBrace(i) => i,
            Token::LSBracket(i) => i,
            Token::RSBracket(i) => i,
            Token::LABracket(i) => i,
            Token::RABracket(i) => i,
            Token::Comment(i) => i,
            Token::BlockComment(i) => i,
            Token::Pound(i) => i,
            Token::String(i) => i,
            Token::Char(i) => i,
            Token::Integer(i) => i,
            Token::Float(i) => i,
            Token::Symbol(i) => i,
        }
    }

    /// Whether the token is a comment.
    pub open spec fn is_comment(self) -> bool {
        self is Comment || self is BlockComment
    }

    /// Whether the token opens a group.
    pub open spec fn is_opener(self) -> bool {
        self is LParen || self is LBrace || self is LSBracket || self is LABracket
    }

    /// Whether the token closes a group.
    pub open spec fn is_closer(self) -> bool {
        self is RParen || self is RBrace || self is RSBracket || self is RABracket
    }

    /// The characters of the token.
    pub open spec fn text(self, input: Seq<char>) -> Seq<char> {
        self.place().of(input)
    }

    /// The place of the token in the text.
    pub fn index(&self) -> (index: Index)
        ensures
            index == self.place(),
    {
        match self {
            Token::LParen(i) => *i,
            Token::RParen(i) => *i,
            Token::LBrace(i) => *i,
            Token::RBrace(i) => *i,
            Token::LSBracket(i) => *i,
            Token::RSBracket(i) => *i,
            Token::LABracket(i) => *i,
            Token::RABracket(i) => *i,
            Token::Comment(i) => *i,
            Token::BlockComment(i) => *i,
            Token::Pound(i) => *i,
            Token::String(i) => *i,
            Token::Char(i) => *i,
            Token::Integer(i) => *i,
            Token::Float(i) => *i,
            Token::Symbol(i) => *i,
        }
    }

    /// Whether the token is a comment.
    pub fn commentp(&self) -> (r: bool)
        ensures
            r == self.is_comment(),
    {
        match self {
            Token::Comment(_) | Token::BlockComment(_) => true,
            _ => false,
        }
    }

    /// Whether the token opens a group.
    pub fn openerp(&self) -> (r: bool)
        ensures
            r == self.is_opener(),
    {
        match self {
            Token::LParen(_) | Token::LBrace(_) | Token::LSBracket(_) | Token::LABracket(_) => true,
            _ => false,
        }
    }

    /// Whether the token closes a group.
    pub fn closerp(&self) -> (r: bool)
        ensures
            r == self.is_closer(),
    {
        match self {
            Token::RParen(_) | Token::RBrace(_) | Token::RSBracket(_) | Token::RABracket(_) => true,
            _ => false,
        }
    }

    /// Whether the token is a name.
    pub fn is_symbol(&self) -> (r: bool)
        ensures
            r == (self is Symbol),
    {
        match self {
            Token::Symbol(_) => true,
            _ => false,
        }
    }

    /// Whether the token is a whole number.
    pub fn is_integer(&self) -> (r: bool)
        ensures
            r == (self is Integer),
    {
        match self {
            Token::Integer(_) => true,
            _ => false,
        }
    }

    /// Whether the token is a number with a fraction or an exponent.
    pub fn is_float(&self) -> (r: bool)
        ensures
            r == (self is Float),
    {
        match self {
            Token::Float(_) => true,
            _ => false,
        }
    }

    /// Whether the token is a string literal.
    pub fn is_string(&self) -> (r: bool)
        ensures
            r == (self is String),
    {
        match self {
            Token::String(_) => true,
            _ => false,
        }
    }

    /// Whether the token is a character literal.
    pub fn is_char(&self) -> (r: bool)
        ensures
            r == (self is Char),
    {
        match self {
            Token::Char(_) => true,
            _ => false,
        }
    }

    /// Whether this opener and the closer `other` are of one kind of
    /// bracket.
    pub fn opener_match(&self, other: Token) -> (r: bool)
        ensures
            r == ((self is LParen && other is RParen) || (self is LBrace && other is RBrace) || (
            self is LSBracket && other is RSBracket) || (self is LABracket && other is RABracket)),
    {
        match (self, other) {
            (Token::LParen(_), Token::RParen(_)) => true,
            (Token::LBrace(_), Token::RBrace(_)) => true,
            (Token::LSBracket(_), Token::RSBracket(_)) => true,
            (Token::LABracket(_), Token::RABracket(_)) => true,
            _ => false,
        }
    }

    /// The symbol of the name that the text of the token spells, escapes
    /// and bars taken out.
    pub fn as_symbol(&self, input: &str, symbols: &mut StringInterner) -> (symbol: Symbol)
        requires
            self.place().fits(input@.len()),
        ensures
            symbol.0 == first_index_of(old(symbols)@, unescaped(self.text(input@))),
            final(symbols)@ == intern(old(symbols)@, unescaped(self.text(input@))),
    {
        let text = self.as_str(input);
        let len = text.unicode_len();
        let mut name = String::new();
        let mut i: usize = 0;
        assert(text@.skip(0) =~= text@);
        proof {
            reveal_strlit("\n");
            reveal_strlit("\t");
        }
        while i < len
            invariant
                i <= len,
                len == text@.len(),
                "\n"@ == seq!['\n'],
                "\t"@ == seq!['\t'],
                unescaped(text@) == name@ + unescaped(text@.skip(i as int)),
            decreases len - i,
        {
            let ghost rest = text@.skip(i as int);
            let ghost before = name@;
            let c = text.get_char(i);
            assert(rest[0] == c);
            if c == '\\' {
                if i + 1 < len {
                    let d = text.get_char(i + 1);
                    assert(rest[1] == d);
                    assert(rest.skip(2) =~= text@.skip(i + 2));
                    if d == 'n' {
                        name.append("\n");
                    } else if d == 't' {
                        name.append("\t");
                    } else {
                        name.append(text.substring_char(i + 1, i + 2));
                        assert(text@.subrange(i + 1, i + 2) =~= seq![d]);
                    }
                    assert(name@ + unescaped(rest.skip(2)) =~= before + (seq![escape(d)]
                        + unescaped(rest.skip(2))));
                    i += 2;
                } else {
                    assert(rest.len() == 1);
                    assert(text@.skip(i + 1) =~= Seq::<char>::empty());
                    assert(name@ + Seq::<char>::empty() =~= name@);
                    i += 1;
                }
            } else if c == '|' {
                assert(rest.skip(1) =~= text@.skip(i + 1));
                i += 1;
            } else {
                assert(rest.skip(1) =~= text@.skip(i + 1));
                name.append(text.substring_char(i, i + 1));
                assert(text@.subrange(i as int, i + 1) =~= seq![c]);
                assert(name@ + unescaped(rest.skip(1)) =~= before + (seq![c] + unescaped(
                    rest.skip(1),
                )));
                i += 1;
            }
        }
        assert(text@.skip(len as int) =~= Seq::<char>::empty());
        assert(name@ + Seq::<char>::empty() =~= name@);
        symbols.get_symbol(name)
    }

    /// The text of the token.
    pub fn as_str<'a>(&self, input: &'a str) -> (text: &'a str)
        requires
            self.place().fits(input@.len()),
        ensures
            text@ == self.text(input@),
    {
        let Index { start, end } = self.index();
        input.substring_char(start, end)
    }
}

/// Whether every token lies within a text of `len` characters.
pub open spec fn all_fit(tokens: Seq<Token>, len: nat) -> bool {
    forall|i: int| 0 <= i < tokens.len() ==> (#[trigger] tokens[i]).place().fits(len)
}

/// Whether every token lies within the text.
pub fn tokens_fit(tokens: &Vec<Token>, input: &str) -> (r: bool)
    ensures
        r == all_fit(tokens@, input@.len()),
{
    let len = input.unicode_len();
    let mut i: usize = 0;
    while i < tokens.len()
        invariant
            i <= tokens@.len(),
            len == input@.len(),
            forall|k: int| 0 <= k < i ==> (#[trigger] tokens@[k]).place().fits(len as nat),
        decreases tokens@.len() - i,
    {
        let index = tokens[i].index();
        if !(index.start <= index.end && index.end <= len) {
            return false;
        }
        i += 1;
    }
    true
}

/// The tokens that are no comments, in their order.
pub open spec fn significant(tokens: Seq<Token>) -> Seq<Token>
    decreases tokens.len(),
{
    if tokens.len() == 0 {
        Seq::empty()
    } else if tokens.last().is_comment() {
        significant(tokens.drop_last())
    } else {
        significant(tokens.drop_last()).push(tokens.last())
    }
}

/// The tokens that are no comments.
pub fn without_comments(tokens: &[Token]) -> (r: Vec<Token>)
    ensures
        r@ == significant(tokens@),
        forall|len: nat| all_fit(tokens@, len) ==> all_fit(r@, len),
{
    let mut kept: Vec<Token> = Vec::new();
    let mut i: usize = 0;
    assert(tokens@.take(0) =~= Seq::<Token>::empty());
    while i < tokens.len()
        invariant
            i <= tokens@.len(),
            kept@ == significant(tokens@.take(i as int)),
            forall|k: int|
                0 <= k < kept@.len() ==> exists|j: int|
                    0 <= j < i && tokens@[j] == #[trigger] kept@[k],
        decreases tokens@.len() - i,
    {
        proof {
            assert(tokens@.take(i + 1).drop_last() =~= tokens@.take(i as int));
            assert(tokens@.take(i + 1).last() == tokens@[i as int]);
        }
        if !tokens[i].commentp() {
            kept.push(tokens[i]);
        }
        i += 1;
    }
    assert(tokens@.take(i as int) =~= tokens@);
    proof {
        assert forall|len: nat| all_fit(tokens@, len) implies all_fit(kept@, len) by {
            assert forall|k: int| 0 <= k < kept@.len() implies (#[trigger] kept@[k]).place().fits(
                len,
            ) by {
                let j = choose|j: int| 0 <= j < i && tokens@[j] == kept@[k];
                assert(tokens@[j].place().fits(len));
            }
        }
    }
    kept
}

} // verus!
