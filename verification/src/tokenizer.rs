//! The tokenizer: cuts a source text into brackets, names, numbers, string
//! literals and comments.

use crate::pattern::{is_match, is_whitespace, regex_match, whitespace};
use crate::text::chars_of;
use crate::token::{all_fit, Index, Token};
use vstd::prelude::*;
use vstd::string::StrSliceExecFns;

verus! {

/// Why a text cannot be cut into tokens.
#[derive(Copy, Clone, Debug, PartialEq, Eq, Structural)]
pub enum TokenizeError {
    /// The text ends within a string literal, a block comment or an escape.
    EOF,
}

impl TokenizeError {
    /// What went wrong, in words.
    pub fn to_string(&self) -> (message: String)
        ensures
            message@ == "Unexpected end of input"@,
    {
        "Unexpected end of input".to_owned()
    }
}

/// How the tokenizer reports that it could not go on.
pub type TokenizeResult = Result<(), TokenizeError>;

/// The pattern of a whole number.
pub open spec fn integer_pattern() -> Seq<char> {
    "^([+-]?\\d+)$"@
}

/// The pattern of a number with a fraction or an exponent.
pub open spec fn real_pattern() -> Seq<char> {
    "^([+-]?\\d*\\.?\\d+(?:[eE][-+]?\\d+)?)$"@
}

/// Whether the character opens a group.
pub open spec fn is_opener_char(c: char) -> bool {
    c == '(' || c == '{' || c == '[' || c == '<'
}

/// Whether the character closes a group.
pub open spec fn is_closer_char(c: char) -> bool {
    c == ')' || c == '}' || c == ']' || c == '>'
}

/// Whether the character ends a name: a bracket, white space, a quote or a
/// semicolon.
pub open spec fn is_delimiter_char(c: char) -> bool {
    is_opener_char(c) || is_closer_char(c) || whitespace(c) || c == '"' || c == ';'
}

/// Whether the character can stand in a number.
pub open spec fn is_number_char(c: char) -> bool {
    ('0' <= c && c <= '9') || c == '+' || c == '-' || c == '/' || c == '.' || c == 'e' || c
        == 'i'
}

/// Whether the character begins what may be a number.
pub open spec fn begins_number(c: char) -> bool {
    ('0' <= c && c <= '9') || c == '+' || c == '-' || c == '.'
}

/// The token of a bracket at a place.
pub open spec fn bracket(c: char, index: Index) -> Token {
    if c == '(' {
        Token::LParen(index)
    } else if c == ')' {
        Token::RParen(index)
    } else if c == '{' {
        Token::LBrace(index)
    } else if c == '}' {
        Token::RBrace(index)
    } else if c == '[' {
        Token::LSBracket(index)
    } else if c == ']' {
        Token::RSBracket(index)
    } else if c == '<' {
        Token::LABracket(index)
    } else {
        Token::RABracket(index)
    }
}

/// The position behind the quote that closes a string literal whose inside
/// begins at `pos`, or `None` where the text ends before. A backslash takes
/// the character behind it along.
pub open spec fn string_end(chars: Seq<char>, pos: nat) -> Option<nat>
    decreases chars.len() - pos,
{
    if pos >= chars.len() {
        None
    } else if chars[pos as int] == '\\' {
        if pos + 1 >= chars.len() {
            None
        } else {
            string_end(chars, pos + 2)
        }
    } else if chars[pos as int] == '"' {
        Some(pos + 1)
    } else {
        string_end(chars, pos + 1)
    }
}

/// The position behind a comment whose inside begins at `pos`: behind the
/// end of its line, or the end of the text. A backslash takes the character
/// behind it along.
pub open spec fn comment_end(chars: Seq<char>, pos: nat) -> nat
    decreases chars.len() - pos,
{
    if pos >= chars.len() {
        chars.len()
    } else if chars[pos as int] == '\\' {
        if pos + 1 >= chars.len() {
            chars.len()
        } else {
            comment_end(chars, pos + 2)
        }
    } else if chars[pos as int] == '\n' {
        pos + 1
    } else {
        comment_end(chars, pos + 1)
    }
}

/// The position behind the `|#` that closes a block comment read up to
/// `pos` with `nesting` comments open, or `None` where the text ends before.
/// A bar or a pound sign takes the character behind it along.
pub open spec fn block_comment_end(chars: Seq<char>, pos: nat, nesting: nat) -> Option<nat>
    decreases chars.len() - pos,
{
    if pos >= chars.len() {
        None
    } else if chars[pos as int] == '|' {
        if pos + 1 >= chars.len() {
            None
        } else if chars[pos as int + 1] == '#' {
            if nesting <= 1 {
                Some(pos + 2)
            } else {
                block_comment_end(chars, pos + 2, (nesting - 1) as nat)
            }
        } else {
            block_comment_end(chars, pos + 2, nesting)
        }
    } else if chars[pos as int] == '#' {
        if pos + 1 >= chars.len() {
            None
        } else if chars[pos as int + 1] == '|' {
            block_comment_end(chars, pos + 2, nesting + 1)
        } else {
            block_comment_end(chars, pos + 2, nesting)
        }
    } else {
        block_comment_end(chars, pos + 1, nesting)
    }
}

/// The position behind a character literal that begins with the pound sign
/// at `pos`: the pound sign, a quote, one character or a backslash with the
/// character behind it, and a quote. `None` where no such literal stands
/// there.
pub open spec fn char_literal_end(chars: Seq<char>, pos: nat) -> Option<nat> {
    if pos + 3 < chars.len() && chars[pos as int + 1] == '\'' {
        if chars[pos as int + 2] != '\\' {
            if chars[pos as int + 3] == '\'' {
                Some(pos + 4)
            } else {
                None
            }
        } else if pos + 4 < chars.len() && chars[pos as int + 4] == '\'' {
            Some(pos + 5)
        } else {
            None
        }
    } else {
        None
    }
}

/// The position of the delimiter that ends a name read up to `pos`, or the
/// end of the text; `None` where the text ends within an escape. Between
/// bars a delimiter does not end the name.
pub open spec fn identifier_end(chars: Seq<char>, pos: nat, in_bar: bool) -> Option<nat>
    decreases chars.len() - pos,
{
    if pos >= chars.len() {
        Some(chars.len())
    } else if chars[pos as int] == '\\' {
        if pos + 1 >= chars.len() {
            None
        } else {
            identifier_end(chars, pos + 2, in_bar)
        }
    } else if chars[pos as int] == '|' {
        identifier_end(chars, pos + 1, !in_bar)
    } else if is_delimiter_char(chars[pos as int]) && !in_bar {
        Some(pos)
    } else {
        identifier_end(chars, pos + 1, in_bar)
    }
}

/// How a run of number characters ends.
pub enum Ambiguous {
    /// At a bracket, at white space or at the end of the text: the run is a
    /// number, or a name that looks like one. The position is that of its
    /// end.
    Number(nat),
    /// At another character: the run is the beginning of a name, which goes
    /// on at the position, between bars or not.
    Identifier(nat, bool),
    /// Within an escape at the end of the text.
    Eof,
}

/// How the run of number characters read up to `pos` ends.
pub open spec fn ambiguous_end(chars: Seq<char>, pos: nat) -> Ambiguous
    decreases chars.len() - pos,
{
    if pos >= chars.len() {
        Ambiguous::Number(chars.len())
    } else {
        let c = chars[pos as int];
        if is_number_char(c) {
            ambiguous_end(chars, pos + 1)
        } else if is_opener_char(c) || is_closer_char(c) || whitespace(c) {
            Ambiguous::Number(pos)
        } else if c == '\\' {
            if pos + 1 >= chars.len() {
                Ambiguous::Eof
            } else {
                Ambiguous::Identifier(pos + 2, false)
            }
        } else {
            Ambiguous::Identifier(pos + 1, c == '|')
        }
    }
}

/// The token of a run of number characters: a whole number, a number with a
/// fraction or an exponent, or else a name.
pub open spec fn classified(chars: Seq<char>, index: Index) -> Token {
    if regex_match(integer_pattern(), index.of(chars)) == Some(true) {
        Token::Integer(index)
    } else if regex_match(real_pattern(), index.of(chars)) == Some(true) {
        Token::Float(index)
    } else {
        Token::Symbol(index)
    }
}

/// What stands at a position: a token or white space, and the position
/// behind it.
pub struct Lexeme {
    pub token: Option<Token>,
    pub next: nat,
}

/// The name that begins at `start` and was read up to `pos`.
pub open spec fn identifier_at(chars: Seq<char>, start: nat, pos: nat, in_bar: bool) -> Result<
    Lexeme,
    TokenizeError,
> {
    match identifier_end(chars, pos, in_bar) {
        None => Err(TokenizeError::EOF),
        Some(end) => Ok(
            Lexeme {
                token: Some(Token::Symbol(Index { start: start as usize, end: end as usize })),
                next: end,
            },
        ),
    }
}

/// What stands at a position of the text.
pub open spec fn lexeme_at(chars: Seq<char>, pos: nat) -> Result<Lexeme, TokenizeError>
    recommends
        pos < chars.len(),
{
    let c = chars[pos as int];
    let start = pos as usize;
    if is_opener_char(c) || is_closer_char(c) {
        Ok(
            Lexeme {
                token: Some(bracket(c, Index { start, end: (pos + 1) as usize })),
                next: pos + 1,
            },
        )
    } else if c == '"' {
        match string_end(chars, pos + 1) {
            None => Err(TokenizeError::EOF),
            Some(end) => Ok(
                Lexeme { token: Some(Token::String(Index { start, end: end as usize })), next: end },
            ),
        }
    } else if c == '|' {
        identifier_at(chars, pos, pos + 1, true)
    } else if c == ';' {
        let end = comment_end(chars, pos + 1);
        Ok(Lexeme { token: Some(Token::Comment(Index { start, end: end as usize })), next: end })
    } else if c == '#' {
        if pos + 1 < chars.len() && chars[pos as int + 1] == '|' {
            match block_comment_end(chars, pos + 1, 1) {
                None => Err(TokenizeError::EOF),
                Some(end) => Ok(
                    Lexeme {
                        token: Some(Token::BlockComment(Index { start, end: end as usize })),
                        next: end,
                    },
                ),
            }
        } else if char_literal_end(chars, pos) is Some {
            let end = char_literal_end(chars, pos)->0;
            Ok(Lexeme { token: Some(Token::Char(Index { start, end: end as usize })), next: end })
        } else {
            Ok(
                Lexeme {
                    token: Some(Token::Pound(Index { start, end: (pos + 1) as usize })),
                    next: pos + 1,
                },
            )
        }
    } else if whitespace(c) {
        Ok(Lexeme { token: None, next: pos + 1 })
    } else if begins_number(c) {
        match ambiguous_end(chars, pos + 1) {
            Ambiguous::Number(end) => Ok(
                Lexeme {
                    token: Some(classified(chars, Index { start, end: end as usize })),
                    next: end,
                },
            ),
            Ambiguous::Identifier(resume, in_bar) => identifier_at(chars, pos, resume, in_bar),
            Ambiguous::Eof => Err(TokenizeError::EOF),
        }
    } else if c == '\\' {
        if pos + 1 >= chars.len() {
            Err(TokenizeError::EOF)
        } else {
            identifier_at(chars, pos, pos + 2, false)
        }
    } else {
        identifier_at(chars, pos, pos + 1, false)
    }
}

/// The tokens of the text from a position on, or the error of the first
/// place where the text ends too early.
pub open spec fn tokens_from(chars: Seq<char>, pos: nat) -> Result<Seq<Token>, TokenizeError>
    decreases chars.len() - pos,
{
    if pos >= chars.len() {
        Ok(Seq::empty())
    } else {
        match lexeme_at(chars, pos) {
            Err(e) => Err(e),
            Ok(lexeme) => if pos < lexeme.next <= chars.len() {
                match tokens_from(chars, lexeme.next) {
                    Err(e) => Err(e),
                    Ok(rest) => Ok(
                        match lexeme.token {
                            Some(token) => seq![token] + rest,
                            None => rest,
                        },
                    ),
                }
            } else {
                Ok(Seq::empty())
            },
        }
    }
}

/// The tokens of a text.
pub open spec fn tokens_of(chars: Seq<char>) -> Result<Seq<Token>, TokenizeError> {
    tokens_from(chars, 0)
}

/// A string literal ends within the text and behind where its inside
/// begins.
pub proof fn lemma_string_end_bounds(chars: Seq<char>, pos: nat)
    ensures
        string_end(chars, pos) is Some ==> pos < string_end(chars, pos)->0 <= chars.len(),
    decreases chars.len() - pos,
{
    if pos < chars.len() {
        if chars[pos as int] == '\\' {
            if pos + 1 < chars.len() {
                lemma_string_end_bounds(chars, pos + 2);
            }
        } else if chars[pos as int] != '"' {
            lemma_string_end_bounds(chars, pos + 1);
        }
    }
}

/// A comment ends within the text and not before its inside begins.
pub proof fn lemma_comment_end_bounds(chars: Seq<char>, pos: nat)
    requires
        pos <= chars.len(),
    ensures
        pos <= comment_end(chars, pos) <= chars.len(),
    decreases chars.len() - pos,
{
    if pos < chars.len() {
        if chars[pos as int] == '\\' {
            if pos + 1 < chars.len() {
                lemma_comment_end_bounds(chars, pos + 2);
            }
        } else if chars[pos as int] != '\n' {
            lemma_comment_end_bounds(chars, pos + 1);
        }
    }
}

/// A block comment ends within the text and behind where it was read up
/// to.
pub proof fn lemma_block_comment_end_bounds(chars: Seq<char>, pos: nat, nesting: nat)
    ensures
        block_comment_end(chars, pos, nesting) is Some ==> pos < block_comment_end(
            chars,
            pos,
            nesting,
        )->0 <= chars.len(),
    decreases chars.len() - pos,
{
    if pos < chars.len() {
        let c = chars[pos as int];
        if c == '|' || c == '#' {
            if pos + 1 < chars.len() {
                let second = chars[pos as int + 1];
                if c == '|' && second == '#' {
                    if nesting > 1 {
                        lemma_block_comment_end_bounds(chars, pos + 2, (nesting - 1) as nat);
                    }
                } else if c == '#' && second == '|' {
                    lemma_block_comment_end_bounds(chars, pos + 2, nesting + 1);
                } else {
                    lemma_block_comment_end_bounds(chars, pos + 2, nesting);
                }
            }
        } else {
            lemma_block_comment_end_bounds(chars, pos + 1, nesting);
        }
    }
}

/// A name ends within the text and not before where it was read up to.
pub proof fn lemma_identifier_end_bounds(chars: Seq<char>, pos: nat, in_bar: bool)
    requires
        pos <= chars.len(),
    ensures
        identifier_end(chars, pos, in_bar) is Some ==> pos <= identifier_end(
            chars,
            pos,
            in_bar,
        )->0 <= chars.len(),
    decreases chars.len() - pos,
{
    if pos < chars.len() {
        let c = chars[pos as int];
        if c == '\\' {
            if pos + 1 < chars.len() {
                lemma_identifier_end_bounds(chars, pos + 2, in_bar);
            }
        } else if c == '|' {
            lemma_identifier_end_bounds(chars, pos + 1, !in_bar);
        } else if !(is_delimiter_char(c) && !in_bar) {
            lemma_identifier_end_bounds(chars, pos + 1, in_bar);
        }
    }
}

/// A run of number characters ends within the text and not before where
/// it was read up to.
pub proof fn lemma_ambiguous_end_bounds(chars: Seq<char>, pos: nat)
    requires
        pos <= chars.len(),
    ensures
        match ambiguous_end(chars, pos) {
            Ambiguous::Number(end) => pos <= end <= chars.len(),
            Ambiguous::Identifier(resume, _) => pos < resume <= chars.len(),
            Ambiguous::Eof => true,
        },
    decreases chars.len() - pos,
{
    if pos < chars.len() && is_number_char(chars[pos as int]) {
        lemma_ambiguous_end_bounds(chars, pos + 1);
    }
}

/// What stands at a position ends within the text and behind the position:
/// the tokenizer always moves on.
pub proof fn lemma_lexeme_advances(chars: Seq<char>, pos: nat)
    requires
        pos < chars.len(),
    ensures
        lexeme_at(chars, pos) is Ok ==> pos < lexeme_at(chars, pos)->Ok_0.next <= chars.len(),
{
    lemma_string_end_bounds(chars, pos + 1);
    lemma_comment_end_bounds(chars, pos + 1);
    lemma_block_comment_end_bounds(chars, pos + 1, 1);
    lemma_identifier_end_bounds(chars, pos + 1, true);
    lemma_identifier_end_bounds(chars, pos + 1, false);
    lemma_ambiguous_end_bounds(chars, pos + 1);
    assert(char_literal_end(chars, pos) is Some ==> pos < char_literal_end(chars, pos)->0
        <= chars.len());
    if pos + 2 <= chars.len() {
        lemma_identifier_end_bounds(chars, pos + 2, false);
    }
    match ambiguous_end(chars, pos + 1) {
        Ambiguous::Identifier(resume, in_bar) => {
            lemma_identifier_end_bounds(chars, resume, in_bar);
        },
        _ => {},
    }
}

/// The tokens read before, followed by those that are still to come.
pub open spec fn extend(read: Seq<Token>, rest: Result<Seq<Token>, TokenizeError>) -> Result<
    Seq<Token>,
    TokenizeError,
> {
    match rest {
        Ok(rest) => Ok(read + rest),
        Err(e) => Err(e),
    }
}

/// Whether the character opens or closes a group.
fn is_bracket(c: char) -> (r: bool)
    ensures
        r == (is_opener_char(c) || is_closer_char(c)),
{
    c == '(' || c == '{' || c == '[' || c == '<' || c == ')' || c == '}' || c == ']' || c == '>'
}

/// Whether the character ends a name.
fn is_delimiter(c: char) -> (r: bool)
    ensures
        r == is_delimiter_char(c),
{
    is_bracket(c) || is_whitespace(c) || c == '"' || c == ';'
}

/// The token of a bracket at a place.
fn bracket_token(c: char, index: Index) -> (token: Token)
    ensures
        token == bracket(c, index),
{
    if c == '(' {
        Token::LParen(index)
    } else if c == ')' {
        Token::RParen(index)
    } else if c == '{' {
        Token::LBrace(index)
    } else if c == '}' {
        Token::RBrace(index)
    } else if c == '[' {
        Token::LSBracket(index)
    } else if c == ']' {
        Token::RSBracket(index)
    } else if c == '<' {
        Token::LABracket(index)
    } else {
        Token::RABracket(index)
    }
}

/// A tokenizer at work on a text: the text, the position of the next
/// character to read, and the tokens read so far.
pub struct Tokenizer<'a> {
    position: usize,
    raw_input: &'a str,
    input: Vec<char>,
    tokens: Vec<Token>,
}

impl<'a> Tokenizer<'a> {
    /// The characters of the text.
    pub closed spec fn chars(&self) -> Seq<char> {
        self.raw_input@
    }

    /// The position of the next character to read.
    pub closed spec fn position(&self) -> nat {
        self.position as nat
    }

    /// The tokens read so far.
    pub closed spec fn tokens(&self) -> Seq<Token> {
        self.tokens@
    }

    /// Whether the tokenizer stands within its text and every token read so
    /// far lies within it.
    pub closed spec fn wf(&self) -> bool {
        &&& self.input@ == self.raw_input@
        &&& self.position <= self.input@.len()
        &&& all_fit(self.tokens@, self.input@.len())
    }

    /// Whether `self` is `before` after one more token, which ends where the
    /// tokenizer now stands.
    pub open spec fn took(&self, before: &Self, token: Token) -> bool {
        &&& self.wf()
        &&& self.chars() == before.chars()
        &&& self.tokens() == before.tokens().push(token)
        &&& self.position() == token.place().end
        &&& before.position() <= self.position()
    }

    /// A tokenizer at the beginning of a text.
    pub fn new(raw_input: &'a str) -> (tokenizer: Self)
        ensures
            tokenizer.wf(),
            tokenizer.chars() == raw_input@,
            tokenizer.position() == 0,
            tokenizer.tokens() == Seq::<Token>::empty(),
    {
        Tokenizer { position: 0, raw_input, input: chars_of(raw_input), tokens: Vec::new() }
    }

    /// Cuts a text into tokens.
    pub fn tokenize(raw_input: &'a str) -> (r: Result<Vec<Token>, TokenizeError>)
        ensures
            match r {
                Ok(tokens) => tokens_of(raw_input@) == Ok::<Seq<Token>, TokenizeError>(tokens@)
                    && all_fit(tokens@, raw_input@.len()),
                Err(e) => tokens_of(raw_input@) == Err::<Seq<Token>, TokenizeError>(e),
            },
    {
        let mut tokenizer = Tokenizer::new(raw_input);
        match tokenizer._tokenize() {
            Ok(()) => {
                assert(Seq::<Token>::empty() + tokenizer.tokens@ =~= tokenizer.tokens@);
                Ok(tokenizer.tokens)
            },
            Err(e) => Err(e),
        }
    }

    /// Reads the next character.
    fn next(&mut self) -> (c: Option<char>)
        requires
            old(self).wf(),
        ensures
            final(self).wf(),
            final(self).chars() == old(self).chars(),
            final(self).tokens() == old(self).tokens(),
            match c {
                Some(c) => old(self).position() < old(self).chars().len() && c == old(
                    self,
                ).chars()[old(self).position() as int] && final(self).position() == old(
                    self,
                ).position() + 1,
                None => old(self).position() == old(self).chars().len() && final(self).position()
                    == old(self).position(),
            },
    {
        if self.position < self.input.len() {
            let c = self.input[self.position];
            self.position += 1;
            Some(c)
        } else {
            None
        }
    }

    /// The next character, which stays unread.
    fn peek(&self) -> (c: Option<char>)
        requires
            self.wf(),
        ensures
            match c {
                Some(c) => self.position() < self.chars().len() && c == self.chars()[self.position() as int],
                None => self.position() == self.chars().len(),
            },
    {
        if self.position < self.input.len() {
            Some(self.input[self.position])
        } else {
            None
        }
    }

    /// Adds a token that ends where the tokenizer stands.
    fn push(&mut self, token: Token)
        requires
            old(self).wf(),
            token.place().start <= token.place().end,
            token.place().end == old(self).position(),
        ensures
            final(self).took(old(self), token),
            final(self).position() == old(self).position(),
    {
        self.tokens.push(token);
    }

    /// Reads the text to its end.
    fn _tokenize(&mut self) -> (r: TokenizeResult)
        requires
            old(self).wf(),
        ensures
            final(self).wf(),
            final(self).chars() == old(self).chars(),
            match r {
                Ok(()) => extend(
                    old(self).tokens(),
                    tokens_from(old(self).chars(), old(self).position()),
                ) == Ok::<Seq<Token>, TokenizeError>(final(self).tokens()),
                Err(e) => tokens_from(old(self).chars(), old(self).position()) == Err::<
                    Seq<Token>,
                    TokenizeError,
                >(e),
            },
    {
        while self.position < self.input.len()
            invariant
                self.wf(),
                self.chars() == old(self).chars(),
                extend(old(self).tokens(), tokens_from(old(self).chars(), old(self).position()))
                    == extend(self.tokens(), tokens_from(self.chars(), self.position())),
            decreases self.chars().len() - self.position(),
        {
            let ghost before = *self;
            match self.token() {
                Err(e) => {
                    return Err(e);
                },
                Ok(()) => {
                    proof {
                        let lexeme = lexeme_at(before.chars(), before.position())->Ok_0;
                        let rest = tokens_from(self.chars(), self.position());
                        if rest is Ok {
                            match lexeme.token {
                                Some(token) => {
                                    assert(before.tokens() + (seq![token] + rest->Ok_0)
                                        =~= before.tokens().push(token) + rest->Ok_0);
                                },
                                None => {},
                            }
                        }
                    }
                },
            }
        }
        assert(self.tokens() + Seq::<Token>::empty() =~= self.tokens());
        Ok(())
    }

    /// Reads what stands at the position: one token, or white space.
    fn token(&mut self) -> (r: TokenizeResult)
        requires
            old(self).wf(),
            old(self).position() < old(self).chars().len(),
        ensures
            final(self).wf(),
            final(self).chars() == old(self).chars(),
            match lexeme_at(old(self).chars(), old(self).position()) {
                Ok(lexeme) => {
                    &&& r is Ok
                    &&& final(self).position() == lexeme.next
                    &&& old(self).position() < lexeme.next <= old(self).chars().len()
                    &&& final(self).tokens() == match lexeme.token {
                        Some(token) => old(self).tokens().push(token),
                        None => old(self).tokens(),
                    }
                },
                Err(e) => r == Err::<(), TokenizeError>(e),
            },
    {
        let c = match self.next() {
            Some(c) => c,
            None => {
                return Ok(());
            },
        };
        if is_bracket(c) {
            self.push(bracket_token(c, Index::new(self.position, self.position)));
            Ok(())
        } else if c == '"' {
            self.parse_string()
        } else if c == '|' {
            self.parse_identifier(self.position, true)
        } else if c == ';' {
            self.parse_comment()
        } else if c == '#' {
            match self.peek() {
                Some('|') => self.parse_block_comment(),
                _ => {
                    if !self.parse_char() {
                        self.push(Token::Pound(Index::new(self.position, self.position)));
                    }
                    Ok(())
                },
            }
        } else if is_whitespace(c) {
            Ok(())
        } else if (c >= '0' && c <= '9') || c == '+' || c == '-' || c == '.' {
            self.parse_ambiguous()
        } else {
            let start = self.position;
            if c == '\\' {
                if self.next().is_none() {
                    return Err(TokenizeError::EOF);
                }
            }
            self.parse_identifier(start, false)
        }
    }

    /// Reads a character literal, if one stands there, and says whether one
    /// did. The pound sign that opens it has been read.
    fn parse_char(&mut self) -> (found: bool)
        requires
            old(self).wf(),
            old(self).position() >= 1,
        ensures
            final(self).wf(),
            final(self).chars() == old(self).chars(),
            match char_literal_end(old(self).chars(), (old(self).position() - 1) as nat) {
                Some(end) => found && end == final(self).position() && final(self).took(
                    old(self),
                    Token::Char(
                        Index { start: (old(self).position() - 1) as usize, end: end as usize },
                    ),
                ),
                None => {
                    &&& !found
                    &&& final(self).position() == old(self).position()
                    &&& final(self).tokens() == old(self).tokens()
                },
            },
    {
        let start = self.position;
        let len = self.input.len();
        if len - start < 3 || self.input[start] != '\'' {
            return false;
        }
        let end = if self.input[start + 1] != '\\' {
            start + 3
        } else if len - start < 4 {
            return false;
        } else {
            start + 4
        };
        if self.input[end - 1] != '\'' {
            return false;
        }
        self.position = end;
        self.push(Token::Char(Index::new(start, end)));
        true
    }

    /// Reads a run of number characters, which is a number or the beginning
    /// of a name. The first character of the run has been read.
    fn parse_ambiguous(&mut self) -> (r: TokenizeResult)
        requires
            old(self).wf(),
            old(self).position() >= 1,
        ensures
            final(self).wf(),
            final(self).chars() == old(self).chars(),
            match ambiguous_end(old(self).chars(), old(self).position()) {
                Ambiguous::Number(end) => r is Ok && final(self).took(
                    old(self),
                    classified(
                        old(self).chars(),
                        Index { start: (old(self).position() - 1) as usize, end: end as usize },
                    ),
                ) && end == final(self).position(),
                Ambiguous::Identifier(resume, in_bar) => match identifier_end(
                    old(self).chars(),
                    resume,
                    in_bar,
                ) {
                    Some(end) => r is Ok && end == final(self).position() && final(self).took(
                        old(self),
                        Token::Symbol(
                            Index {
                                start: (old(self).position() - 1) as usize,
                                end: end as usize,
                            },
                        ),
                    ),
                    None => r == Err::<(), TokenizeError>(TokenizeError::EOF),
                },
                Ambiguous::Eof => r == Err::<(), TokenizeError>(TokenizeError::EOF),
            },
    {
        let start = self.position;
        while self.position < self.input.len()
            invariant
                self.wf(),
                self.chars() == old(self).chars(),
                self.tokens() == old(self).tokens(),
                start == old(self).position(),
                1 <= start <= self.position(),
                ambiguous_end(old(self).chars(), old(self).position()) == ambiguous_end(
                    self.chars(),
                    self.position(),
                ),
            decreases self.chars().len() - self.position(),
        {
            let c = self.input[self.position];
            if (c >= '0' && c <= '9') || c == '+' || c == '-' || c == '/' || c == '.' || c == 'e'
                || c == 'i' {
                self.position += 1;
            } else if is_bracket(c) || is_whitespace(c) {
                return self.distinguish_ambiguous(start, self.position);
            } else if c == '\\' {
                if self.position + 1 >= self.input.len() {
                    return Err(TokenizeError::EOF);
                }
                self.position += 2;
                return self.parse_identifier(start, false);
            } else {
                self.position += 1;
                return self.parse_identifier(start, c == '|');
            }
        }
        self.distinguish_ambiguous(start, self.position)
    }

    /// Decides what a run of number characters is, and adds its token.
    fn distinguish_ambiguous(&mut self, start: usize, end: usize) -> (r: TokenizeResult)
        requires
            old(self).wf(),
            1 <= start <= end,
            end == old(self).position(),
        ensures
            r is Ok,
            final(self).took(
                old(self),
                classified(old(self).chars(), Index { start: (start - 1) as usize, end }),
            ),
    {
        let index = Index::new(start, end);
        let buf = self.raw_input.substring_char(index.start, index.end);
        let token = if is_match("^([+-]?\\d+)$", buf) == Some(true) {
            Token::Integer(index)
        } else if is_match("^([+-]?\\d*\\.?\\d+(?:[eE][-+]?\\d+)?)$", buf) == Some(true) {
            Token::Float(index)
        } else {
            Token::Symbol(index)
        };
        self.push(token);
        Ok(())
    }

    /// Reads a name to the delimiter that ends it, which stays unread. The
    /// name began one character before `start`.
    fn parse_identifier(&mut self, start: usize, in_bar: bool) -> (r: TokenizeResult)
        requires
            old(self).wf(),
            1 <= start <= old(self).position(),
        ensures
            final(self).wf(),
            final(self).chars() == old(self).chars(),
            match identifier_end(old(self).chars(), old(self).position(), in_bar) {
                Some(end) => r is Ok && end == final(self).position() && final(self).took(
                    old(self),
                    Token::Symbol(Index { start: (start - 1) as usize, end: end as usize }),
                ),
                None => r == Err::<(), TokenizeError>(TokenizeError::EOF),
            },
    {
        let mut barred = in_bar;
        while self.position < self.input.len()
            invariant
                self.wf(),
                self.chars() == old(self).chars(),
                self.tokens() == old(self).tokens(),
                1 <= start <= old(self).position() <= self.position(),
                identifier_end(old(self).chars(), old(self).position(), in_bar) == identifier_end(
                    self.chars(),
                    self.position(),
                    barred,
                ),
            decreases self.chars().len() - self.position(),
        {
            let c = self.input[self.position];
            if c == '\\' {
                if self.position + 1 >= self.input.len() {
                    return Err(TokenizeError::EOF);
                }
                self.position += 2;
            } else if c == '|' {
                barred = !barred;
                self.position += 1;
            } else if is_delimiter(c) && !barred {
                self.push(Token::Symbol(Index::new(start, self.position)));
                return Ok(());
            } else {
                self.position += 1;
            }
        }
        self.push(Token::Symbol(Index::new(start, self.position)));
        Ok(())
    }

    /// Reads a string literal to the quote that closes it. The quote that
    /// opens it has been read.
    pub fn parse_string(&mut self) -> (r: TokenizeResult)
        requires
            old(self).wf(),
            old(self).position() >= 1,
        ensures
            final(self).wf(),
            final(self).chars() == old(self).chars(),
            match string_end(old(self).chars(), old(self).position()) {
                Some(end) => r is Ok && end == final(self).position() && final(self).took(
                    old(self),
                    Token::String(
                        Index { start: (old(self).position() - 1) as usize, end: end as usize },
                    ),
                ),
                None => r == Err::<(), TokenizeError>(TokenizeError::EOF),
            },
    {
        let start = self.position;
        while self.position < self.input.len()
            invariant
                self.wf(),
                self.chars() == old(self).chars(),
                self.tokens() == old(self).tokens(),
                start == old(self).position(),
                1 <= start <= self.position(),
                string_end(old(self).chars(), old(self).position()) == string_end(
                    self.chars(),
                    self.position(),
                ),
            decreases self.chars().len() - self.position(),
        {
            let c = self.input[self.position];
            if c == '\\' {
                if self.position + 1 >= self.input.len() {
                    return Err(TokenizeError::EOF);
                }
                self.position += 2;
            } else if c == '"' {
                self.position += 1;
                self.push(Token::String(Index::new(start, self.position)));
                return Ok(());
            } else {
                self.position += 1;
            }
        }
        Err(TokenizeError::EOF)
    }

    /// Reads a block comment to the `|#` that closes it. The pound sign that
    /// opens it has been read.
    fn parse_block_comment(&mut self) -> (r: TokenizeResult)
        requires
            old(self).wf(),
            old(self).position() >= 1,
        ensures
            final(self).wf(),
            final(self).chars() == old(self).chars(),
            match block_comment_end(old(self).chars(), old(self).position(), 1) {
                Some(end) => r is Ok && end == final(self).position() && final(self).took(
                    old(self),
                    Token::BlockComment(
                        Index { start: (old(self).position() - 1) as usize, end: end as usize },
                    ),
                ),
                None => r == Err::<(), TokenizeError>(TokenizeError::EOF),
            },
    {
        let start = self.position;
        let mut nesting: usize = 1;
        while self.position < self.input.len()
            invariant
                self.wf(),
                self.chars() == old(self).chars(),
                self.tokens() == old(self).tokens(),
                start == old(self).position(),
                1 <= start <= self.position(),
                1 <= nesting <= 1 + self.position(),
                block_comment_end(old(self).chars(), old(self).position(), 1) == block_comment_end(
                    self.chars(),
                    self.position(),
                    nesting as nat,
                ),
            decreases self.chars().len() - self.position(),
        {
            let c = self.input[self.position];
            if c == '|' || c == '#' {
                if self.position + 1 >= self.input.len() {
                    return Err(TokenizeError::EOF);
                }
                let second = self.input[self.position + 1];
                self.position += 2;
                if c == '|' && second == '#' {
                    if nesting <= 1 {
                        self.push(Token::BlockComment(Index::new(start, self.position)));
                        return Ok(());
                    }
                    nesting -= 1;
                } else if c == '#' && second == '|' {
                    nesting += 1;
                }
            } else {
                self.position += 1;
            }
        }
        Err(TokenizeError::EOF)
    }

    /// Reads a comment to the end of its line. The semicolon that opens it
    /// has been read.
    fn parse_comment(&mut self) -> (r: TokenizeResult)
        requires
            old(self).wf(),
            old(self).position() >= 1,
        ensures
            r is Ok,
            final(self).took(
                old(self),
                Token::Comment(
                    Index {
                        start: (old(self).position() - 1) as usize,
                        end: comment_end(old(self).chars(), old(self).position()) as usize,
                    },
                ),
            ),
            comment_end(old(self).chars(), old(self).position()) == final(self).position(),
    {
        let start = self.position;
        while self.position < self.input.len()
            invariant
                self.wf(),
                self.chars() == old(self).chars(),
                self.tokens() == old(self).tokens(),
                start == old(self).position(),
                1 <= start <= self.position(),
                comment_end(old(self).chars(), old(self).position()) == comment_end(
                    self.chars(),
                    self.position(),
                ),
            decreases self.chars().len() - self.position(),
        {
            let c = self.input[self.position];
            if c == '\\' {
                if self.position + 1 >= self.input.len() {
                    self.position = self.input.len();
                    self.push(Token::Comment(Index::new(start, self.position)));
                    return Ok(());
                }
                self.position += 2;
            } else if c == '\n' {
                self.position += 1;
                self.push(Token::Comment(Index::new(start, self.position)));
                return Ok(());
            } else {
                self.position += 1;
            }
        }
        self.push(Token::Comment(Index::new(start, self.position)));
        Ok(())
    }
}

} // verus!
