//! The parser of the surface language: from the tokens of a text to the
//! pieces of a program. Names become symbols of an interner.

use crate::ast::{
    lemma_view_of_function, lemma_view_of_pieces, pairs, trees, Arg, Ast, CompilePrimitive, Shape,
    Tree, Type, Value,
};
use crate::interner::{distinct, extends, first_index_of, intern, StringInterner, Symbol};
use crate::number::{parse_i32, parsed_i32};
use crate::text::same_text;
use crate::token::{all_fit, Token};
use vstd::prelude::*;
use vstd::string::StringExecFns;

verus! {

/// Why tokens are no program.
#[derive(Copy, Clone, Debug, PartialEq, Eq, Structural)]
pub enum ParserError {
    /// The tokens end in the middle of a piece.
    EOI,
    /// A closer is missing, or stands where a piece must stand.
    Closer,
    /// A token stands where no token of its kind can stand.
    Token,
    /// A piece stands at the top of the program that is no definition and
    /// takes no file in.
    Item,
    /// Inline assembly stands beside other pieces in a function.
    Asm,
    /// A function that states a type ends in a definition, or in nothing.
    ReturnType,
    /// A name or a written value stands in a function before its end.
    NonfinalValue,
    /// A piece stands where a value must stand.
    Value,
    /// A whole number does not fit 32 bits.
    Integer,
}

impl ParserError {
    /// The message of the error.
    pub open spec fn text(self) -> Seq<char> {
        match self {
            ParserError::EOI => "Unexpected end of input"@,
            ParserError::Closer => "Expected closer"@,
            ParserError::Token => "Unexpected token"@,
            ParserError::Item => "Expected item"@,
            ParserError::Asm => "Inline assembly must be the only item in a procedure"@,
            ParserError::ReturnType => "Returned value does not match the expected return type"@,
            ParserError::NonfinalValue
                => "Primitive/identifier can only be the last item in a procedure"@,
            ParserError::Value => "Expected expression"@,
            ParserError::Integer => "Integer does not fit 32 bits"@,
        }
    }

    /// The message of the error.
    pub fn to_string(&self) -> (message: String)
        ensures
            message@ == self.text(),
    {
        String::from_str(
            match self {
                ParserError::EOI => "Unexpected end of input",
                ParserError::Closer => "Expected closer",
                ParserError::Token => "Unexpected token",
                ParserError::Item => "Expected item",
                ParserError::Asm => "Inline assembly must be the only item in a procedure",
                ParserError::ReturnType => "Returned value does not match the expected return type",
                ParserError::NonfinalValue
                    => "Primitive/identifier can only be the last item in a procedure",
                ParserError::Value => "Expected expression",
                ParserError::Integer => "Integer does not fit 32 bits",
            },
        )
    }
}

/// What was read: the value, the position behind it, and the names that
/// are interned by then.
pub struct Step<T> {
    pub value: T,
    pub next: int,
    pub names: Seq<Seq<char>>,
}

/// The symbol that a text gets from an interner that holds `names`.
pub open spec fn symbol_of(names: Seq<Seq<char>>, text: Seq<char>) -> Symbol {
    Symbol(first_index_of(names, text) as usize)
}

/// Whether a piece is a name, a written value or a call.
pub open spec fn is_plain(e: Tree) -> bool {
    e is Identifier || e is Primitive || e is Application
}

/// Whether a piece can stand in a choice: a name, a written value, a call,
/// a choice or a block.
pub open spec fn is_branch(e: Tree) -> bool {
    is_plain(e) || e is If || e is Block
}

/// Whether a closer stands at a position.
pub open spec fn closes(tokens: Seq<Token>, pos: int) -> bool {
    0 <= pos < tokens.len() && tokens[pos].is_closer()
}

/// The closer at a position: `Ok`, or the error of what stands there.
pub open spec fn closer(tokens: Seq<Token>, pos: int) -> Result<(), ParserError> {
    if !(0 <= pos < tokens.len()) {
        Err(ParserError::EOI)
    } else if !tokens[pos].is_closer() {
        Err(ParserError::Closer)
    } else {
        Ok(())
    }
}

/// The name at a position: its token, or the error of what stands there.
pub open spec fn name_at(tokens: Seq<Token>, pos: int) -> Result<Token, ParserError> {
    if !(0 <= pos < tokens.len()) {
        Err(ParserError::EOI)
    } else if !(tokens[pos] is Symbol) {
        Err(ParserError::Token)
    } else {
        Ok(tokens[pos])
    }
}

/// The type at a position and the position behind it: the name of a type,
/// or a group of the name of a type and the type inside it.
pub open spec fn read_type(tokens: Seq<Token>, input: Seq<char>, pos: int) -> Result<
    (Shape, int),
    ParserError,
>
    decreases tokens.len() - pos,
{
    if !(0 <= pos < tokens.len()) {
        Err(ParserError::EOI)
    } else if tokens[pos] is Symbol {
        match Type::named(tokens[pos].text(input), None) {
            Some(shape) => Ok((shape, pos + 1)),
            None => Err(ParserError::Token),
        }
    } else if tokens[pos].is_opener() {
        match name_at(tokens, pos + 1) {
            Err(e) => Err(e),
            Ok(outer) => match read_type(tokens, input, pos + 2) {
                Err(e) => Err(e),
                Ok((inner, next)) => match closer(tokens, next) {
                    Err(e) => Err(e),
                    Ok(_) => match Type::named(outer.text(input), Some(inner)) {
                        Some(shape) => Ok((shape, next + 1)),
                        None => Err(ParserError::Token),
                    },
                },
            },
        }
    } else {
        Err(ParserError::Token)
    }
}

/// The tokens of inline assembly from a position on, up to the closer that
/// ends it: every token as it stands, comments too. `openers` counts the
/// groups that are open, that of the assembly itself among them.
pub open spec fn assembly_from(tokens: Seq<Token>, pos: int, openers: nat, found: Seq<Token>) -> Result<
    (Seq<Token>, int),
    ParserError,
>
    decreases tokens.len() - pos,
{
    if !(0 <= pos < tokens.len()) {
        Err(ParserError::EOI)
    } else if tokens[pos].is_opener() {
        assembly_from(tokens, pos + 1, openers + 1, found.push(tokens[pos]))
    } else if tokens[pos].is_closer() {
        if openers <= 1 {
            Ok((found, pos + 1))
        } else {
            assembly_from(tokens, pos + 1, (openers - 1) as nat, found.push(tokens[pos]))
        }
    } else {
        assembly_from(tokens, pos + 1, openers, found.push(tokens[pos]))
    }
}

/// The written value behind a `#`: `t` and `f` are the truth values.
pub open spec fn pound(tokens: Seq<Token>, input: Seq<char>, pos: int) -> Result<
    (Tree, int),
    ParserError,
> {
    if !(0 <= pos < tokens.len()) {
        Err(ParserError::EOI)
    } else if !(tokens[pos] is Symbol) {
        Err(ParserError::Token)
    } else if tokens[pos].text(input) == "t"@ {
        Ok((Tree::Primitive(Value::Bool(true)), pos + 1))
    } else if tokens[pos].text(input) == "f"@ {
        Ok((Tree::Primitive(Value::Bool(false)), pos + 1))
    } else {
        Err(ParserError::Token)
    }
}

/// The piece at a position, or `None` where a closer stands there or the
/// tokens end. Comments in front of it are passed over.
pub open spec fn expr(tokens: Seq<Token>, input: Seq<char>, pos: int, names: Seq<Seq<char>>) -> Result<
    Step<Option<Tree>>,
    ParserError,
>
    decreases tokens.len() - pos, 0nat,
{
    if !(0 <= pos < tokens.len()) {
        Ok(Step { value: None, next: pos, names })
    } else if tokens[pos].is_comment() {
        expr(tokens, input, pos + 1, names)
    } else if tokens[pos].is_closer() {
        Ok(Step { value: None, next: pos + 1, names })
    } else if tokens[pos].is_opener() {
        match paren(tokens, input, pos + 1, names) {
            Err(e) => Err(e),
            Ok(step) => Ok(Step { value: Some(step.value), next: step.next, names: step.names }),
        }
    } else {
        let text = tokens[pos].text(input);
        match tokens[pos] {
            Token::Symbol(_) => Ok(
                Step {
                    value: Some(Tree::Identifier(symbol_of(names, text))),
                    next: pos + 1,
                    names: intern(names, text),
                },
            ),
            Token::String(_) => Ok(
                Step { value: Some(Tree::Primitive(Value::String(text))), next: pos + 1, names },
            ),
            Token::Integer(_) => match parsed_i32(text) {
                Some(v) => Ok(
                    Step { value: Some(Tree::Primitive(Value::Integer(v))), next: pos + 1, names },
                ),
                None => Err(ParserError::Integer),
            },
            Token::Pound(_) => match pound(tokens, input, pos + 1) {
                Err(e) => Err(e),
                Ok((tree, next)) => Ok(Step { value: Some(tree), next, names }),
            },
            _ => Err(ParserError::Token),
        }
    }
}

/// The pieces from a position on, up to the closer that ends them or to the
/// end of the tokens, behind the pieces `found`.
pub open spec fn exprs(
    tokens: Seq<Token>,
    input: Seq<char>,
    pos: int,
    names: Seq<Seq<char>>,
    found: Seq<Tree>,
) -> Result<Step<Seq<Tree>>, ParserError>
    decreases tokens.len() - pos, 1nat,
{
    match expr(tokens, input, pos, names) {
        Err(e) => Err(e),
        Ok(step) => match step.value {
            Some(tree) if pos < step.next <= tokens.len() => exprs(
                tokens,
                input,
                step.next,
                step.names,
                found.push(tree),
            ),
            _ => Ok(Step { value: found, next: step.next, names: step.names }),
        },
    }
}

/// The parts of a call from a position on, behind the parts `found`: each
/// is a name, a written value or a call.
pub open spec fn parts(
    tokens: Seq<Token>,
    input: Seq<char>,
    pos: int,
    names: Seq<Seq<char>>,
    found: Seq<Tree>,
) -> Result<Step<Seq<Tree>>, ParserError>
    decreases tokens.len() - pos, 1nat,
{
    match expr(tokens, input, pos, names) {
        Err(e) => Err(e),
        Ok(step) => match step.value {
            Some(tree) if pos < step.next <= tokens.len() => if is_plain(tree) {
                parts(tokens, input, step.next, step.names, found.push(tree))
            } else {
                Err(ParserError::Value)
            },
            _ => Ok(Step { value: found, next: step.next, names: step.names }),
        },
    }
}

/// The pieces of the body of a function from a position on, behind the
/// pieces `found`. A name or a written value stands only at the end, and
/// inline assembly only alone.
pub open spec fn body(
    tokens: Seq<Token>,
    input: Seq<char>,
    pos: int,
    names: Seq<Seq<char>>,
    found: Seq<Tree>,
) -> Result<Step<Seq<Tree>>, ParserError>
    decreases tokens.len() - pos, 1nat,
{
    match expr(tokens, input, pos, names) {
        Err(e) => Err(e),
        Ok(step) => match step.value {
            Some(tree) if pos < step.next <= tokens.len() => if (tree is Identifier || tree is Primitive)
                && !closes(tokens, step.next) {
                Err(ParserError::NonfinalValue)
            } else if tree is Asm && (found.len() != 0 || !closes(tokens, step.next)) {
                Err(ParserError::Asm)
            } else {
                body(tokens, input, step.next, step.names, found.push(tree))
            },
            _ => Ok(Step { value: found, next: step.next, names: step.names }),
        },
    }
}

/// The arguments of a function from a position on, up to the closer that
/// ends them, behind the arguments `found`: each a group of a name and a
/// type.
pub open spec fn arguments(
    tokens: Seq<Token>,
    input: Seq<char>,
    pos: int,
    names: Seq<Seq<char>>,
    found: Seq<(Symbol, Shape)>,
) -> Result<Step<Seq<(Symbol, Shape)>>, ParserError>
    decreases tokens.len() - pos,
{
    if !(0 <= pos < tokens.len()) {
        Err(ParserError::EOI)
    } else if tokens[pos].is_closer() {
        Ok(Step { value: found, next: pos + 1, names })
    } else if !tokens[pos].is_opener() {
        Err(ParserError::Token)
    } else {
        match name_at(tokens, pos + 1) {
            Err(e) => Err(e),
            Ok(name) => match read_type(tokens, input, pos + 2) {
                Err(e) => Err(e),
                Ok((shape, next)) => match closer(tokens, next) {
                    Err(e) => Err(e),
                    Ok(_) => if pos < next + 1 <= tokens.len() {
                        arguments(
                            tokens,
                            input,
                            next + 1,
                            intern(names, name.text(input)),
                            found.push((symbol_of(names, name.text(input)), shape)),
                        )
                    } else {
                        Err(ParserError::EOI)
                    },
                },
            },
        }
    }
}

/// The types of arguments.
pub open spec fn types_of(args: Seq<(Symbol, Shape)>) -> Seq<Shape> {
    Seq::new(args.len(), |i: int| args[i].1)
}

/// The type that a definition states for its value: that of a written
/// value; of a name or a call it is not known yet.
pub open spec fn stated(value: Tree) -> Shape {
    match value {
        Tree::Primitive(v) => v.shape(),
        _ => Shape::Hole,
    }
}

/// The piece behind the opener of a group: by its first token a form of the
/// language, a call, inline assembly, or a call of something that the
/// compiler provides.
pub open spec fn paren(tokens: Seq<Token>, input: Seq<char>, pos: int, names: Seq<Seq<char>>) -> Result<
    Step<Tree>,
    ParserError,
>
    decreases tokens.len() - pos, 4nat,
{
    if !(0 <= pos < tokens.len()) {
        Err(ParserError::EOI)
    } else if tokens[pos].is_comment() {
        paren(tokens, input, pos + 1, names)
    } else if tokens[pos] is Symbol {
        form(tokens, input, tokens[pos], pos + 1, names)
    } else if tokens[pos] is Pound {
        if !(pos + 1 < tokens.len()) {
            Err(ParserError::EOI)
        } else if !(tokens[pos + 1] is Symbol) {
            Err(ParserError::Token)
        } else if tokens[pos + 1].text(input) == "asm"@ {
            match assembly_from(tokens, pos + 2, 1, Seq::empty()) {
                Err(e) => Err(e),
                Ok((found, next)) => Ok(Step { value: Tree::Asm(found), next, names }),
            }
        } else if tokens[pos + 1].text(input) == "intrinsic"@ {
            Ok(Step { value: Tree::Intrinsic(Seq::empty()), next: pos + 2, names })
        } else {
            Err(ParserError::Token)
        }
    } else {
        Err(ParserError::Token)
    }
}

/// The piece that begins with the name `head`, from the position behind the
/// name on.
pub open spec fn form(
    tokens: Seq<Token>,
    input: Seq<char>,
    head: Token,
    pos: int,
    names: Seq<Seq<char>>,
) -> Result<Step<Tree>, ParserError>
    decreases tokens.len() - pos, 3nat,
{
    let text = head.text(input);
    if text == "include"@ {
        inclusion(tokens, input, pos, names)
    } else if text == "define"@ {
        definition(tokens, input, pos, names)
    } else if text == "defn"@ {
        function(tokens, input, pos, names)
    } else if text == "if"@ {
        choice(tokens, input, pos, names)
    } else if text == "begin"@ {
        match exprs(tokens, input, pos, names, Seq::empty()) {
            Err(e) => Err(e),
            Ok(step) => Ok(
                Step { value: Tree::Block(step.value), next: step.next, names: step.names },
            ),
        }
    } else {
        match parts(
            tokens,
            input,
            pos,
            intern(names, text),
            seq![Tree::Identifier(symbol_of(names, text))],
        ) {
            Err(e) => Err(e),
            Ok(step) => Ok(
                Step { value: Tree::Application(step.value), next: step.next, names: step.names },
            ),
        }
    }
}

/// A file that is taken in: its name, then the closer.
pub open spec fn inclusion(tokens: Seq<Token>, input: Seq<char>, pos: int, names: Seq<Seq<char>>) -> Result<
    Step<Tree>,
    ParserError,
> {
    match name_at(tokens, pos) {
        Err(e) => Err(e),
        Ok(name) => match closer(tokens, pos + 1) {
            Err(e) => Err(e),
            Ok(_) => Ok(
                Step {
                    value: Tree::Include(symbol_of(names, name.text(input))),
                    next: pos + 2,
                    names: intern(names, name.text(input)),
                },
            ),
        },
    }
}

/// The definition of a value: its name, then a name, a written value or a
/// call, then the closer.
pub open spec fn definition(
    tokens: Seq<Token>,
    input: Seq<char>,
    pos: int,
    names: Seq<Seq<char>>,
) -> Result<Step<Tree>, ParserError>
    decreases tokens.len() - pos, 2nat,
{
    match name_at(tokens, pos) {
        Err(e) => Err(e),
        Ok(name) => match expr(tokens, input, pos + 1, intern(names, name.text(input))) {
            Err(e) => Err(e),
            Ok(step) => match step.value {
                None => Err(ParserError::Closer),
                Some(value) => if !is_plain(value) {
                    Err(ParserError::Value)
                } else {
                    match closer(tokens, step.next) {
                        Err(e) => Err(e),
                        Ok(_) => Ok(
                            Step {
                                value: Tree::Define {
                                    name: symbol_of(names, name.text(input)),
                                    ty: stated(value),
                                    value: Box::new(value),
                                },
                                next: step.next + 1,
                                names: step.names,
                            },
                        ),
                    }
                },
            },
        },
    }
}

/// A piece of a choice at a position.
pub open spec fn branch(tokens: Seq<Token>, input: Seq<char>, pos: int, names: Seq<Seq<char>>) -> Result<
    Step<Tree>,
    ParserError,
>
    decreases tokens.len() - pos, 1nat,
{
    match expr(tokens, input, pos, names) {
        Err(e) => Err(e),
        Ok(step) => match step.value {
            None => Err(ParserError::Closer),
            Some(tree) => if is_branch(tree) {
                Ok(Step { value: tree, next: step.next, names: step.names })
            } else {
                Err(ParserError::Value)
            },
        },
    }
}

/// A choice: the test, the first branch, a second branch unless the closer
/// follows at once, then the closer.
pub open spec fn choice(tokens: Seq<Token>, input: Seq<char>, pos: int, names: Seq<Seq<char>>) -> Result<
    Step<Tree>,
    ParserError,
>
    decreases tokens.len() - pos, 2nat,
{
    match branch(tokens, input, pos, names) {
        Err(e) => Err(e),
        Ok(test) => if !(pos < test.next <= tokens.len()) {
            Err(ParserError::EOI)
        } else {
            match branch(tokens, input, test.next, test.names) {
                Err(e) => Err(e),
                Ok(first) => if !(pos < first.next < tokens.len()) {
                    Err(ParserError::EOI)
                } else if tokens[first.next].is_closer() {
                    Ok(
                        Step {
                            value: Tree::If {
                                predicate: Box::new(test.value),
                                consequent: Box::new(first.value),
                                alternative: None,
                            },
                            next: first.next + 1,
                            names: first.names,
                        },
                    )
                } else {
                    match branch(tokens, input, first.next, first.names) {
                        Err(e) => Err(e),
                        Ok(second) => match closer(tokens, second.next) {
                            Err(e) => Err(e),
                            Ok(_) => Ok(
                                Step {
                                    value: Tree::If {
                                        predicate: Box::new(test.value),
                                        consequent: Box::new(first.value),
                                        alternative: Some(Box::new(second.value)),
                                    },
                                    next: second.next + 1,
                                    names: second.names,
                                },
                            ),
                        },
                    }
                },
            }
        },
    }
}

/// Whether a piece is a definition or takes a file in.
pub open spec fn is_item(e: Tree) -> bool {
    e is Include || e is Define || e is Defn
}

/// The definition of a function: a group of its name, the group of its
/// arguments, and its type unless it is the empty type; then the body. A
/// function that states a type ends in a piece that has one.
pub open spec fn function(
    tokens: Seq<Token>,
    input: Seq<char>,
    pos: int,
    names: Seq<Seq<char>>,
) -> Result<Step<Tree>, ParserError>
    decreases tokens.len() - pos, 2nat,
{
    if !(0 <= pos < tokens.len()) {
        Err(ParserError::EOI)
    } else if !tokens[pos].is_opener() {
        Err(ParserError::Token)
    } else {
        match name_at(tokens, pos + 1) {
            Err(e) => Err(e),
            Ok(name) => if !(pos + 2 < tokens.len()) {
                Err(ParserError::EOI)
            } else if !tokens[pos + 2].is_opener() {
                Err(ParserError::Token)
            } else {
                match arguments(
                    tokens,
                    input,
                    pos + 3,
                    intern(names, name.text(input)),
                    Seq::empty(),
                ) {
                    Err(e) => Err(e),
                    Ok(args) => if !(pos < args.next < tokens.len()) {
                        Err(ParserError::EOI)
                    } else {
                        let ret = if tokens[args.next].is_closer() {
                            Ok((Shape::Empty, args.next))
                        } else {
                            read_type(tokens, input, args.next)
                        };
                        match ret {
                            Err(e) => Err(e),
                            Ok((ret, at)) => match closer(tokens, at) {
                                Err(e) => Err(e),
                                Ok(_) => if !(pos <= at < tokens.len()) {
                                    Err(ParserError::EOI)
                                } else {
                                    match body(tokens, input, at + 1, args.names, Seq::empty()) {
                                        Err(e) => Err(e),
                                        Ok(step) => if ret != Shape::Empty && (step.value.len()
                                            == 0 || is_item(step.value.last())) {
                                            Err(ParserError::ReturnType)
                                        } else {
                                            Ok(
                                                Step {
                                                    value: Tree::Defn {
                                                        name: symbol_of(names, name.text(input)),
                                                        ty: Shape::Arrow(
                                                            types_of(args.value),
                                                            Box::new(ret),
                                                        ),
                                                        args: args.value,
                                                        body: step.value,
                                                    },
                                                    next: step.next,
                                                    names: step.names,
                                                },
                                            )
                                        },
                                    }
                                },
                            },
                        }
                    },
                }
            },
        }
    }
}

/// The pieces at the top of a program from a position on, behind the pieces
/// `found`: each a definition or a file that is taken in. Comments between
/// them are passed over.
pub open spec fn program(
    tokens: Seq<Token>,
    input: Seq<char>,
    pos: int,
    names: Seq<Seq<char>>,
    found: Seq<Tree>,
) -> Result<Step<Seq<Tree>>, ParserError>
    decreases tokens.len() - pos, 5nat,
{
    if !(0 <= pos < tokens.len()) {
        Ok(Step { value: found, next: pos, names })
    } else if tokens[pos].is_comment() {
        program(tokens, input, pos + 1, names, found)
    } else {
        match expr(tokens, input, pos, names) {
            Err(e) => Err(e),
            Ok(step) => match step.value {
                None => Err(ParserError::Closer),
                Some(tree) => if !is_item(tree) {
                    Err(ParserError::Item)
                } else if pos < step.next <= tokens.len() {
                    program(tokens, input, step.next, step.names, found.push(tree))
                } else {
                    Err(ParserError::EOI)
                },
            },
        }
    }
}

/// Whether what was read ends behind `pos`, or at `pos` where `strict` is
/// not asked, and within `len` tokens.
pub open spec fn ends_within<T>(
    r: Result<Step<T>, ParserError>,
    pos: int,
    len: int,
    strict: bool,
) -> bool {
    match r {
        Err(_) => true,
        Ok(step) => (pos < step.next || (!strict && pos == step.next)) && step.next <= len,
    }
}

/// A type that is read takes at least one token and ends within the
/// tokens.
pub proof fn lemma_type_advances(tokens: Seq<Token>, input: Seq<char>, pos: int)
    ensures
        read_type(tokens, input, pos) is Ok ==> pos < read_type(tokens, input, pos)->Ok_0.1
            <= tokens.len(),
    decreases tokens.len() - pos,
{
    if 0 <= pos < tokens.len() && !(tokens[pos] is Symbol) && tokens[pos].is_opener() && name_at(
        tokens,
        pos + 1,
    ) is Ok {
        lemma_type_advances(tokens, input, pos + 2);
    }
}

/// Inline assembly that is read takes at least one token and ends within
/// the tokens.
pub proof fn lemma_assembly_advances(tokens: Seq<Token>, pos: int, openers: nat, found: Seq<Token>)
    ensures
        assembly_from(tokens, pos, openers, found) is Ok ==> pos < assembly_from(
            tokens,
            pos,
            openers,
            found,
        )->Ok_0.1 <= tokens.len(),
    decreases tokens.len() - pos,
{
    if 0 <= pos < tokens.len() {
        if tokens[pos].is_opener() {
            lemma_assembly_advances(tokens, pos + 1, openers + 1, found.push(tokens[pos]));
        } else if tokens[pos].is_closer() {
            if openers > 1 {
                lemma_assembly_advances(
                    tokens,
                    pos + 1,
                    (openers - 1) as nat,
                    found.push(tokens[pos]),
                );
            }
        } else {
            lemma_assembly_advances(tokens, pos + 1, openers, found.push(tokens[pos]));
        }
    }
}

/// The arguments of a function that are read take at least one token and
/// end within the tokens.
pub proof fn lemma_arguments_advance(
    tokens: Seq<Token>,
    input: Seq<char>,
    pos: int,
    names: Seq<Seq<char>>,
    found: Seq<(Symbol, Shape)>,
)
    ensures
        ends_within(arguments(tokens, input, pos, names, found), pos, tokens.len() as int, true),
    decreases tokens.len() - pos,
{
    if 0 <= pos < tokens.len() && !tokens[pos].is_closer() && tokens[pos].is_opener() {
        if name_at(tokens, pos + 1) is Ok {
            let name = name_at(tokens, pos + 1)->Ok_0;
            lemma_type_advances(tokens, input, pos + 2);
            if read_type(tokens, input, pos + 2) is Ok {
                let (shape, next) = read_type(tokens, input, pos + 2)->Ok_0;
                if closer(tokens, next) is Ok {
                    lemma_arguments_advance(
                        tokens,
                        input,
                        next + 1,
                        intern(names, name.text(input)),
                        found.push((symbol_of(names, name.text(input)), shape)),
                    );
                }
            }
        }
    }
}

/// A piece that is read takes at least one token and ends within the
/// tokens; where no piece is read, no token behind the end is taken. So the
/// pieces of a block, the parts of a call, the pieces of a body and of a
/// program are read one behind the other until a closer or the end.
pub proof fn lemma_expr_advances(
    tokens: Seq<Token>,
    input: Seq<char>,
    pos: int,
    names: Seq<Seq<char>>,
)
    requires
        0 <= pos <= tokens.len(),
    ensures
        ends_within(expr(tokens, input, pos, names), pos, tokens.len() as int, false),
        expr(tokens, input, pos, names) is Ok && expr(tokens, input, pos, names)->Ok_0.value
            is Some ==> pos < expr(tokens, input, pos, names)->Ok_0.next,
    decreases tokens.len() - pos, 0nat,
{
    if pos < tokens.len() {
        if tokens[pos].is_comment() {
            lemma_expr_advances(tokens, input, pos + 1, names);
        } else if tokens[pos].is_closer() {
        } else if tokens[pos].is_opener() {
            lemma_paren_advances(tokens, input, pos + 1, names);
        }
    }
}

/// A group that is read ends behind its first token and within the tokens.
pub proof fn lemma_paren_advances(
    tokens: Seq<Token>,
    input: Seq<char>,
    pos: int,
    names: Seq<Seq<char>>,
)
    requires
        0 <= pos <= tokens.len(),
    ensures
        ends_within(paren(tokens, input, pos, names), pos, tokens.len() as int, true),
    decreases tokens.len() - pos, 4nat,
{
    if pos < tokens.len() {
        if tokens[pos].is_comment() {
            lemma_paren_advances(tokens, input, pos + 1, names);
        } else if tokens[pos] is Symbol {
            lemma_form_advances(tokens, input, tokens[pos], pos + 1, names);
        } else if tokens[pos] is Pound {
            if pos + 1 < tokens.len() {
                lemma_assembly_advances(tokens, pos + 2, 1, Seq::empty());
            }
        }
    }
}

/// A form that is read ends within the tokens, at or behind the position
/// behind its name.
pub proof fn lemma_form_advances(
    tokens: Seq<Token>,
    input: Seq<char>,
    head: Token,
    pos: int,
    names: Seq<Seq<char>>,
)
    requires
        0 <= pos <= tokens.len(),
    ensures
        ends_within(form(tokens, input, head, pos, names), pos, tokens.len() as int, false),
    decreases tokens.len() - pos, 3nat,
{
    let text = head.text(input);
    if text == "include"@ {
    } else if text == "define"@ {
        lemma_definition_advances(tokens, input, pos, names);
    } else if text == "defn"@ {
        lemma_function_advances(tokens, input, pos, names);
    } else if text == "if"@ {
        lemma_choice_advances(tokens, input, pos, names);
    } else if text == "begin"@ {
        lemma_exprs_advance(tokens, input, pos, names, Seq::empty());
    } else {
        lemma_parts_advance(
            tokens,
            input,
            pos,
            intern(names, text),
            seq![Tree::Identifier(symbol_of(names, text))],
        );
    }
}

/// Pieces that are read in a row end within the tokens.
pub proof fn lemma_exprs_advance(
    tokens: Seq<Token>,
    input: Seq<char>,
    pos: int,
    names: Seq<Seq<char>>,
    found: Seq<Tree>,
)
    requires
        0 <= pos <= tokens.len(),
    ensures
        ends_within(exprs(tokens, input, pos, names, found), pos, tokens.len() as int, false),
    decreases tokens.len() - pos, 1nat,
{
    lemma_expr_advances(tokens, input, pos, names);
    if expr(tokens, input, pos, names) is Ok {
        let step = expr(tokens, input, pos, names)->Ok_0;
        if step.value is Some {
            lemma_exprs_advance(tokens, input, step.next, step.names, found.push(step.value->0));
        }
    }
}

/// The parts of a call that are read end within the tokens.
pub proof fn lemma_parts_advance(
    tokens: Seq<Token>,
    input: Seq<char>,
    pos: int,
    names: Seq<Seq<char>>,
    found: Seq<Tree>,
)
    requires
        0 <= pos <= tokens.len(),
    ensures
        ends_within(parts(tokens, input, pos, names, found), pos, tokens.len() as int, false),
    decreases tokens.len() - pos, 1nat,
{
    lemma_expr_advances(tokens, input, pos, names);
    if expr(tokens, input, pos, names) is Ok {
        let step = expr(tokens, input, pos, names)->Ok_0;
        if step.value is Some && is_plain(step.value->0) {
            lemma_parts_advance(tokens, input, step.next, step.names, found.push(step.value->0));
        }
    }
}

/// The pieces of a body that are read end within the tokens.
pub proof fn lemma_body_advances(
    tokens: Seq<Token>,
    input: Seq<char>,
    pos: int,
    names: Seq<Seq<char>>,
    found: Seq<Tree>,
)
    requires
        0 <= pos <= tokens.len(),
    ensures
        ends_within(body(tokens, input, pos, names, found), pos, tokens.len() as int, false),
    decreases tokens.len() - pos, 1nat,
{
    lemma_expr_advances(tokens, input, pos, names);
    if expr(tokens, input, pos, names) is Ok {
        let step = expr(tokens, input, pos, names)->Ok_0;
        if step.value is Some {
            lemma_body_advances(tokens, input, step.next, step.names, found.push(step.value->0));
        }
    }
}

/// A definition that is read ends behind its name and within the tokens.
pub proof fn lemma_definition_advances(
    tokens: Seq<Token>,
    input: Seq<char>,
    pos: int,
    names: Seq<Seq<char>>,
)
    requires
        0 <= pos <= tokens.len(),
    ensures
        ends_within(definition(tokens, input, pos, names), pos, tokens.len() as int, true),
    decreases tokens.len() - pos, 2nat,
{
    if name_at(tokens, pos) is Ok {
        let name = name_at(tokens, pos)->Ok_0;
        lemma_expr_advances(tokens, input, pos + 1, intern(names, name.text(input)));
    }
}

/// A piece of a choice that is read takes at least one token and ends
/// within the tokens.
pub proof fn lemma_branch_advances(
    tokens: Seq<Token>,
    input: Seq<char>,
    pos: int,
    names: Seq<Seq<char>>,
)
    requires
        0 <= pos <= tokens.len(),
    ensures
        ends_within(branch(tokens, input, pos, names), pos, tokens.len() as int, true),
    decreases tokens.len() - pos, 1nat,
{
    lemma_expr_advances(tokens, input, pos, names);
}

/// A choice that is read takes at least one token and ends within the
/// tokens.
pub proof fn lemma_choice_advances(
    tokens: Seq<Token>,
    input: Seq<char>,
    pos: int,
    names: Seq<Seq<char>>,
)
    requires
        0 <= pos <= tokens.len(),
    ensures
        ends_within(choice(tokens, input, pos, names), pos, tokens.len() as int, true),
    decreases tokens.len() - pos, 2nat,
{
    lemma_branch_advances(tokens, input, pos, names);
    if branch(tokens, input, pos, names) is Ok {
        let test = branch(tokens, input, pos, names)->Ok_0;
        lemma_branch_advances(tokens, input, test.next, test.names);
        if branch(tokens, input, test.next, test.names) is Ok {
            let first = branch(tokens, input, test.next, test.names)->Ok_0;
            if first.next < tokens.len() && !tokens[first.next].is_closer() {
                lemma_branch_advances(tokens, input, first.next, first.names);
            }
        }
    }
}

/// The definition of a function that is read takes at least one token and
/// ends within the tokens.
pub proof fn lemma_function_advances(
    tokens: Seq<Token>,
    input: Seq<char>,
    pos: int,
    names: Seq<Seq<char>>,
)
    requires
        0 <= pos <= tokens.len(),
    ensures
        ends_within(function(tokens, input, pos, names), pos, tokens.len() as int, true),
    decreases tokens.len() - pos, 2nat,
{
    if pos < tokens.len() && tokens[pos].is_opener() && name_at(tokens, pos + 1) is Ok && pos + 2
        < tokens.len() && tokens[pos + 2].is_opener() {
        let name = name_at(tokens, pos + 1)->Ok_0;
        let listed = arguments(
            tokens,
            input,
            pos + 3,
            intern(names, name.text(input)),
            Seq::empty(),
        );
        lemma_arguments_advance(
            tokens,
            input,
            pos + 3,
            intern(names, name.text(input)),
            Seq::empty(),
        );
        if listed is Ok {
            let args = listed->Ok_0;
            if args.next < tokens.len() {
                lemma_type_advances(tokens, input, args.next);
                let ret = if tokens[args.next].is_closer() {
                    Ok::<(Shape, int), ParserError>((Shape::Empty, args.next))
                } else {
                    read_type(tokens, input, args.next)
                };
                if ret is Ok && closer(tokens, ret->Ok_0.1) is Ok {
                    lemma_body_advances(tokens, input, ret->Ok_0.1 + 1, args.names, Seq::empty());
                }
            }
        }
    }
}

/// Whether the outcome of reading one piece is what the grammar gives.
pub open spec fn reads_piece(
    r: Result<(Ast, usize), ParserError>,
    s: Result<Step<Tree>, ParserError>,
    names: Seq<Seq<char>>,
) -> bool {
    match s {
        Err(e) => r is Err && r->Err_0 == e,
        Ok(step) => r is Ok && r->Ok_0.0@ == step.value && r->Ok_0.1 == step.next && names
            == step.names,
    }
}

/// Whether the outcome of reading a piece that may be missing is what the
/// grammar gives.
pub open spec fn reads_maybe(
    r: Result<(Option<Ast>, usize), ParserError>,
    s: Result<Step<Option<Tree>>, ParserError>,
    names: Seq<Seq<char>>,
) -> bool {
    match s {
        Err(e) => r is Err && r->Err_0 == e,
        Ok(step) => r is Ok && r->Ok_0.1 == step.next && names == step.names && match (
            r->Ok_0.0,
            step.value,
        ) {
            (Some(ast), Some(tree)) => ast@ == tree,
            (None, None) => true,
            _ => false,
        },
    }
}

/// The closer at a position.
fn read_closer(tokens: &Vec<Token>, pos: usize) -> (r: Result<(), ParserError>)
    ensures
        r == closer(tokens@, pos as int),
        r is Ok ==> pos < tokens@.len() <= usize::MAX,
{
    if pos >= tokens.len() {
        Err(ParserError::EOI)
    } else if !tokens[pos].closerp() {
        Err(ParserError::Closer)
    } else {
        Ok(())
    }
}

/// The name at a position.
fn read_name(tokens: &Vec<Token>, pos: usize) -> (r: Result<Token, ParserError>)
    ensures
        r == name_at(tokens@, pos as int),
        r is Ok ==> pos < tokens@.len() <= usize::MAX && r->Ok_0 == tokens@[pos as int],
{
    if pos >= tokens.len() {
        Err(ParserError::EOI)
    } else if !tokens[pos].is_symbol() {
        Err(ParserError::Token)
    } else {
        Ok(tokens[pos])
    }
}

/// The symbol of the text of a token.
fn intern_text(token: Token, input: &str, interner: &mut StringInterner) -> (symbol: Symbol)
    requires
        token.place().fits(input@.len()),
    ensures
        extends(final(interner)@, old(interner)@),
        distinct(old(interner)@) ==> distinct(final(interner)@),
        symbol == symbol_of(old(interner)@, token.text(input@)),
        final(interner)@ == intern(old(interner)@, token.text(input@)),
{
    interner.get_symbol(String::from_str(token.as_str(input)))
}

/// Reads a type.
fn parse_type(tokens: &Vec<Token>, input: &str, pos: usize) -> (r: Result<
    (Type, usize),
    ParserError,
>)
    requires
        all_fit(tokens@, input@.len()),
    ensures
        match read_type(tokens@, input@, pos as int) {
            Err(e) => r is Err && r->Err_0 == e,
            Ok((shape, next)) => r is Ok && r->Ok_0.0@ == shape && r->Ok_0.1 == next,
        },
        r is Ok ==> pos < r->Ok_0.1 <= tokens@.len(),
    decreases tokens@.len() - pos,
{
    if pos >= tokens.len() {
        return Err(ParserError::EOI);
    }
    let token = tokens[pos];
    if token.is_symbol() {
        match Type::try_from_token(token, input, None) {
            Some(ty) => Ok((ty, pos + 1)),
            None => Err(ParserError::Token),
        }
    } else if token.openerp() {
        let outer = match read_name(tokens, pos + 1) {
            Ok(outer) => outer,
            Err(e) => {
                return Err(e);
            },
        };
        let (inner, next) = match parse_type(tokens, input, pos + 2) {
            Ok(found) => found,
            Err(e) => {
                return Err(e);
            },
        };
        match read_closer(tokens, next) {
            Ok(()) => {},
            Err(e) => {
                return Err(e);
            },
        }
        match Type::try_from_token(outer, input, Some(inner)) {
            Some(ty) => Ok((ty, next + 1)),
            None => Err(ParserError::Token),
        }
    } else {
        Err(ParserError::Token)
    }
}

/// Reads the tokens of inline assembly up to the closer that ends it.
fn parse_assembly(tokens: &Vec<Token>, start: usize) -> (r: Result<(Vec<Token>, usize), ParserError>)
    requires
        1 <= start <= tokens@.len(),
    ensures
        match assembly_from(tokens@, start as int, 1, Seq::empty()) {
            Err(e) => r is Err && r->Err_0 == e,
            Ok((found, next)) => r is Ok && r->Ok_0.0@ == found && r->Ok_0.1 == next,
        },
        r is Ok ==> start < r->Ok_0.1 <= tokens@.len(),
{
    let mut found: Vec<Token> = Vec::new();
    let mut openers: usize = 1;
    let mut pos: usize = start;
    while pos < tokens.len()
        invariant
            start <= pos <= tokens@.len(),
            1 <= start,
            1 <= openers <= 1 + (pos - start),
            assembly_from(tokens@, start as int, 1, Seq::empty()) == assembly_from(
                tokens@,
                pos as int,
                openers as nat,
                found@,
            ),
        decreases tokens@.len() - pos,
    {
        let token = tokens[pos];
        if token.openerp() {
            openers += 1;
        } else if token.closerp() {
            if openers == 1 {
                return Ok((found, pos + 1));
            } else {
                openers -= 1;
            }
        }
        found.push(token);
        pos += 1;
    }
    Err(ParserError::EOI)
}

/// Reads the written value behind a `#`.
fn parse_pound(tokens: &Vec<Token>, input: &str, pos: usize) -> (r: Result<
    (Ast, usize),
    ParserError,
>)
    requires
        all_fit(tokens@, input@.len()),
    ensures
        match pound(tokens@, input@, pos as int) {
            Err(e) => r is Err && r->Err_0 == e,
            Ok((tree, next)) => r is Ok && r->Ok_0.0@ == tree && r->Ok_0.1 == next,
        },
        r is Ok ==> pos < r->Ok_0.1 <= tokens@.len(),
{
    if pos >= tokens.len() {
        return Err(ParserError::EOI);
    }
    let token = tokens[pos];
    if !token.is_symbol() {
        return Err(ParserError::Token);
    }
    let text = token.as_str(input);
    if same_text(text, "t") {
        Ok((Ast::Primitive(CompilePrimitive::Bool(true)), pos + 1))
    } else if same_text(text, "f") {
        Ok((Ast::Primitive(CompilePrimitive::Bool(false)), pos + 1))
    } else {
        Err(ParserError::Token)
    }
}

/// Whether a piece is a name, a written value or a call.
fn plain(e: &Ast) -> (r: bool)
    ensures
        r == is_plain(e@),
{
    match e {
        Ast::Identifier(_) | Ast::Primitive(_) | Ast::Application(_) => true,
        _ => false,
    }
}

/// Reads the piece at a position, or `None` where a closer stands there or
/// the tokens end.
fn parse_expr(tokens: &Vec<Token>, input: &str, pos: usize, interner: &mut StringInterner) -> (r:
    Result<(Option<Ast>, usize), ParserError>)
    requires
        all_fit(tokens@, input@.len()),
    ensures
        extends(final(interner)@, old(interner)@),
        distinct(old(interner)@) ==> distinct(final(interner)@),
        reads_maybe(r, expr(tokens@, input@, pos as int, old(interner)@), final(interner)@),
        r is Ok ==> pos <= r->Ok_0.1 <= tokens@.len() || (r->Ok_0.0 is None && r->Ok_0.1 == pos),
        r is Ok && r->Ok_0.0 is Some ==> pos < r->Ok_0.1 <= tokens@.len(),
    decreases tokens@.len() - pos, 0nat,
{
    if pos >= tokens.len() {
        return Ok((None, pos));
    }
    let token = tokens[pos];
    if token.commentp() {
        parse_expr(tokens, input, pos + 1, interner)
    } else if token.closerp() {
        Ok((None, pos + 1))
    } else if token.openerp() {
        match parse_paren(tokens, input, pos + 1, interner) {
            Err(e) => Err(e),
            Ok((ast, next)) => Ok((Some(ast), next)),
        }
    } else {
        match token {
            Token::Symbol(_) => {
                let symbol = intern_text(token, input, interner);
                Ok((Some(Ast::Identifier(symbol)), pos + 1))
            },
            Token::String(_) => {
                let text = String::from_str(token.as_str(input));
                Ok((Some(Ast::Primitive(CompilePrimitive::String(text))), pos + 1))
            },
            Token::Integer(_) => match parse_i32(token.as_str(input)) {
                Ok(v) => Ok((Some(Ast::Primitive(CompilePrimitive::Integer(v))), pos + 1)),
                Err(_) => Err(ParserError::Integer),
            },
            Token::Pound(_) => match parse_pound(tokens, input, pos + 1) {
                Err(e) => Err(e),
                Ok((ast, next)) => Ok((Some(ast), next)),
            },
            _ => Err(ParserError::Token),
        }
    }
}

/// Reads the piece behind the opener of a group.
fn parse_paren(tokens: &Vec<Token>, input: &str, pos: usize, interner: &mut StringInterner) -> (r:
    Result<(Ast, usize), ParserError>)
    requires
        all_fit(tokens@, input@.len()),
    ensures
        extends(final(interner)@, old(interner)@),
        distinct(old(interner)@) ==> distinct(final(interner)@),
        reads_piece(r, paren(tokens@, input@, pos as int, old(interner)@), final(interner)@),
        r is Ok ==> pos < r->Ok_0.1 <= tokens@.len(),
    decreases tokens@.len() - pos, 4nat,
{
    if pos >= tokens.len() {
        return Err(ParserError::EOI);
    }
    let token = tokens[pos];
    if token.commentp() {
        parse_paren(tokens, input, pos + 1, interner)
    } else if token.is_symbol() {
        parse_form(tokens, input, token, pos + 1, interner)
    } else if let Token::Pound(_) = token {
        if pos + 1 >= tokens.len() {
            return Err(ParserError::EOI);
        }
        let kind = tokens[pos + 1];
        if !kind.is_symbol() {
            return Err(ParserError::Token);
        }
        let text = kind.as_str(input);
        if same_text(text, "asm") {
            match parse_assembly(tokens, pos + 2) {
                Err(e) => Err(e),
                Ok((found, next)) => Ok((Ast::Asm(found), next)),
            }
        } else if same_text(text, "intrinsic") {
            let nothing: Vec<Ast> = Vec::new();
            proof {
                lemma_view_of_pieces(nothing);
                assert(trees(nothing@) =~= Seq::<Tree>::empty());
            }
            Ok((Ast::Intrinsic(nothing), pos + 2))
        } else {
            Err(ParserError::Token)
        }
    } else {
        Err(ParserError::Token)
    }
}

/// Whether the outcome of reading pieces in a row is what the grammar
/// gives.
pub open spec fn reads_many(
    r: Result<(Vec<Ast>, usize), ParserError>,
    s: Result<Step<Seq<Tree>>, ParserError>,
    names: Seq<Seq<char>>,
) -> bool {
    match s {
        Err(e) => r is Err && r->Err_0 == e,
        Ok(step) => r is Ok && trees(r->Ok_0.0@) == step.value && r->Ok_0.1 == step.next && names
            == step.names,
    }
}

/// Reads pieces up to the closer that ends them, or to the end of the
/// tokens.
#[verifier::loop_isolation(false)]
fn parse_pieces(tokens: &Vec<Token>, input: &str, pos: usize, interner: &mut StringInterner) -> (r:
    Result<(Vec<Ast>, usize), ParserError>)
    requires
        all_fit(tokens@, input@.len()),
        pos <= tokens@.len(),
    ensures
        extends(final(interner)@, old(interner)@),
        distinct(old(interner)@) ==> distinct(final(interner)@),
        reads_many(
            r,
            exprs(tokens@, input@, pos as int, old(interner)@, Seq::empty()),
            final(interner)@,
        ),
        r is Ok ==> pos <= r->Ok_0.1 <= tokens@.len(),
    decreases tokens@.len() - pos, 1nat,
{
    let mut found: Vec<Ast> = Vec::new();
    let mut at: usize = pos;
    assert(trees(found@) =~= Seq::<Tree>::empty());
    loop
        invariant
            extends(interner@, old(interner)@),
            distinct(old(interner)@) ==> distinct(interner@),
            pos <= at <= tokens@.len(),
            exprs(tokens@, input@, pos as int, old(interner)@, Seq::empty()) == exprs(
                tokens@,
                input@,
                at as int,
                interner@,
                trees(found@),
            ),
        decreases tokens@.len() - at,
    {
        match parse_expr(tokens, input, at, interner) {
            Err(e) => {
                return Err(e);
            },
            Ok((None, next)) => {
                return Ok((found, next));
            },
            Ok((Some(piece), next)) => {
                assert(trees(found@.push(piece)) =~= trees(found@).push(piece@));
                found.push(piece);
                at = next;
            },
        }
    }
}

/// Reads the parts of a call behind what is called.
#[verifier::loop_isolation(false)]
fn parse_parts(
    tokens: &Vec<Token>,
    input: &str,
    pos: usize,
    called: Ast,
    interner: &mut StringInterner,
) -> (r: Result<(Vec<Ast>, usize), ParserError>)
    requires
        all_fit(tokens@, input@.len()),
        pos <= tokens@.len(),
    ensures
        extends(final(interner)@, old(interner)@),
        distinct(old(interner)@) ==> distinct(final(interner)@),
        reads_many(
            r,
            parts(tokens@, input@, pos as int, old(interner)@, seq![called@]),
            final(interner)@,
        ),
        r is Ok ==> pos <= r->Ok_0.1 <= tokens@.len(),
    decreases tokens@.len() - pos, 1nat,
{
    let mut found: Vec<Ast> = Vec::new();
    found.push(called);
    let mut at: usize = pos;
    assert(trees(found@) =~= seq![called@]);
    loop
        invariant
            extends(interner@, old(interner)@),
            distinct(old(interner)@) ==> distinct(interner@),
            pos <= at <= tokens@.len(),
            parts(tokens@, input@, pos as int, old(interner)@, seq![called@]) == parts(
                tokens@,
                input@,
                at as int,
                interner@,
                trees(found@),
            ),
        decreases tokens@.len() - at,
    {
        match parse_expr(tokens, input, at, interner) {
            Err(e) => {
                return Err(e);
            },
            Ok((None, next)) => {
                return Ok((found, next));
            },
            Ok((Some(piece), next)) => {
                if !plain(&piece) {
                    return Err(ParserError::Value);
                }
                assert(trees(found@.push(piece)) =~= trees(found@).push(piece@));
                found.push(piece);
                at = next;
            },
        }
    }
}

/// Reads a file that is taken in, from its name on.
fn parse_inclusion(tokens: &Vec<Token>, input: &str, pos: usize, interner: &mut StringInterner) -> (r:
    Result<(Ast, usize), ParserError>)
    requires
        all_fit(tokens@, input@.len()),
    ensures
        extends(final(interner)@, old(interner)@),
        distinct(old(interner)@) ==> distinct(final(interner)@),
        reads_piece(r, inclusion(tokens@, input@, pos as int, old(interner)@), final(interner)@),
        r is Ok ==> pos < r->Ok_0.1 <= tokens@.len(),
{
    let name = match read_name(tokens, pos) {
        Ok(name) => name,
        Err(e) => {
            return Err(e);
        },
    };
    match read_closer(tokens, pos + 1) {
        Ok(()) => {},
        Err(e) => {
            return Err(e);
        },
    }
    let symbol = intern_text(name, input, interner);
    Ok((Ast::Include(symbol), pos + 2))
}

/// Reads the piece that begins with the name `head`.
fn parse_form(
    tokens: &Vec<Token>,
    input: &str,
    head: Token,
    pos: usize,
    interner: &mut StringInterner,
) -> (r: Result<(Ast, usize), ParserError>)
    requires
        all_fit(tokens@, input@.len()),
        head.place().fits(input@.len()),
        pos <= tokens@.len(),
    ensures
        extends(final(interner)@, old(interner)@),
        distinct(old(interner)@) ==> distinct(final(interner)@),
        reads_piece(r, form(tokens@, input@, head, pos as int, old(interner)@), final(interner)@),
        r is Ok ==> pos <= r->Ok_0.1 <= tokens@.len(),
    decreases tokens@.len() - pos, 3nat,
{
    let text = head.as_str(input);
    if same_text(text, "include") {
        parse_inclusion(tokens, input, pos, interner)
    } else if same_text(text, "define") {
        parse_definition(tokens, input, pos, interner)
    } else if same_text(text, "defn") {
        parse_function(tokens, input, pos, interner)
    } else if same_text(text, "if") {
        parse_choice(tokens, input, pos, interner)
    } else if same_text(text, "begin") {
        match parse_pieces(tokens, input, pos, interner) {
            Err(e) => Err(e),
            Ok((found, next)) => {
                proof {
                    lemma_view_of_pieces(found);
                }
                Ok((Ast::Block(found), next))
            },
        }
    } else {
        let symbol = intern_text(head, input, interner);
        match parse_parts(tokens, input, pos, Ast::Identifier(symbol), interner) {
            Err(e) => Err(e),
            Ok((found, next)) => {
                proof {
                    lemma_view_of_pieces(found);
                }
                Ok((Ast::Application(found), next))
            },
        }
    }
}

/// Reads the definition of a value, from its name on.
fn parse_definition(
    tokens: &Vec<Token>,
    input: &str,
    pos: usize,
    interner: &mut StringInterner,
) -> (r: Result<(Ast, usize), ParserError>)
    requires
        all_fit(tokens@, input@.len()),
    ensures
        extends(final(interner)@, old(interner)@),
        distinct(old(interner)@) ==> distinct(final(interner)@),
        reads_piece(r, definition(tokens@, input@, pos as int, old(interner)@), final(interner)@),
        r is Ok ==> pos < r->Ok_0.1 <= tokens@.len(),
    decreases tokens@.len() - pos, 2nat,
{
    let name = match read_name(tokens, pos) {
        Ok(name) => name,
        Err(e) => {
            return Err(e);
        },
    };
    let symbol = intern_text(name, input, interner);
    let (value, next) = match parse_expr(tokens, input, pos + 1, interner) {
        Err(e) => {
            return Err(e);
        },
        Ok((None, _)) => {
            return Err(ParserError::Closer);
        },
        Ok((Some(value), next)) => (value, next),
    };
    if !plain(&value) {
        return Err(ParserError::Value);
    }
    match read_closer(tokens, next) {
        Ok(()) => {},
        Err(e) => {
            return Err(e);
        },
    }
    let ty = match &value {
        Ast::Primitive(p) => p.ty(),
        _ => Type::Hole,
    };
    Ok((Ast::Define { name: symbol, ty, value: Box::new(value) }, next + 1))
}

/// Reads a piece of a choice.
fn parse_branch(tokens: &Vec<Token>, input: &str, pos: usize, interner: &mut StringInterner) -> (r:
    Result<(Ast, usize), ParserError>)
    requires
        all_fit(tokens@, input@.len()),
    ensures
        extends(final(interner)@, old(interner)@),
        distinct(old(interner)@) ==> distinct(final(interner)@),
        reads_piece(r, branch(tokens@, input@, pos as int, old(interner)@), final(interner)@),
        r is Ok ==> pos < r->Ok_0.1 <= tokens@.len(),
    decreases tokens@.len() - pos, 1nat,
{
    match parse_expr(tokens, input, pos, interner) {
        Err(e) => Err(e),
        Ok((None, _)) => Err(ParserError::Closer),
        Ok((Some(piece), next)) => {
            let fits = match &piece {
                Ast::Identifier(_) | Ast::Primitive(_) | Ast::Application(_) | Ast::If { .. }
                | Ast::Block(_) => true,
                _ => false,
            };
            if fits {
                Ok((piece, next))
            } else {
                Err(ParserError::Value)
            }
        },
    }
}

/// Reads a choice, from its test on.
fn parse_choice(tokens: &Vec<Token>, input: &str, pos: usize, interner: &mut StringInterner) -> (r:
    Result<(Ast, usize), ParserError>)
    requires
        all_fit(tokens@, input@.len()),
    ensures
        extends(final(interner)@, old(interner)@),
        distinct(old(interner)@) ==> distinct(final(interner)@),
        reads_piece(r, choice(tokens@, input@, pos as int, old(interner)@), final(interner)@),
        r is Ok ==> pos < r->Ok_0.1 <= tokens@.len(),
    decreases tokens@.len() - pos, 2nat,
{
    let (test, next) = match parse_branch(tokens, input, pos, interner) {
        Ok(found) => found,
        Err(e) => {
            return Err(e);
        },
    };
    let (first, next) = match parse_branch(tokens, input, next, interner) {
        Ok(found) => found,
        Err(e) => {
            return Err(e);
        },
    };
    if next >= tokens.len() {
        return Err(ParserError::EOI);
    }
    if tokens[next].closerp() {
        return Ok(
            (
                Ast::If {
                    predicate: Box::new(test),
                    consequent: Box::new(first),
                    alternative: None,
                },
                next + 1,
            ),
        );
    }
    let (second, next) = match parse_branch(tokens, input, next, interner) {
        Ok(found) => found,
        Err(e) => {
            return Err(e);
        },
    };
    match read_closer(tokens, next) {
        Ok(()) => {},
        Err(e) => {
            return Err(e);
        },
    }
    Ok(
        (
            Ast::If {
                predicate: Box::new(test),
                consequent: Box::new(first),
                alternative: Some(Box::new(second)),
            },
            next + 1,
        ),
    )
}

/// Reads the arguments of a function up to the closer that ends them.
#[verifier::loop_isolation(false)]
fn parse_arguments(tokens: &Vec<Token>, input: &str, pos: usize, interner: &mut StringInterner) -> (r:
    Result<(Vec<Arg>, usize), ParserError>)
    requires
        all_fit(tokens@, input@.len()),
        pos <= tokens@.len(),
    ensures
        extends(final(interner)@, old(interner)@),
        distinct(old(interner)@) ==> distinct(final(interner)@),
        match arguments(tokens@, input@, pos as int, old(interner)@, Seq::empty()) {
            Err(e) => r is Err && r->Err_0 == e,
            Ok(step) => r is Ok && pairs(r->Ok_0.0@) == step.value && r->Ok_0.1 == step.next
                && final(interner)@ == step.names,
        },
        r is Ok ==> pos < r->Ok_0.1 <= tokens@.len(),
{
    let mut args: Vec<Arg> = Vec::new();
    let mut at: usize = pos;
    assert(pairs(args@) =~= Seq::<(Symbol, Shape)>::empty());
    loop
        invariant
            extends(interner@, old(interner)@),
            distinct(old(interner)@) ==> distinct(interner@),
            pos <= at <= tokens@.len(),
            arguments(tokens@, input@, pos as int, old(interner)@, Seq::empty()) == arguments(
                tokens@,
                input@,
                at as int,
                interner@,
                pairs(args@),
            ),
        decreases tokens@.len() - at,
    {
        if at >= tokens.len() {
            return Err(ParserError::EOI);
        }
        if tokens[at].closerp() {
            return Ok((args, at + 1));
        }
        if !tokens[at].openerp() {
            return Err(ParserError::Token);
        }
        let name = match read_name(tokens, at + 1) {
            Ok(name) => name,
            Err(e) => {
                return Err(e);
            },
        };
        let (ty, next) = match parse_type(tokens, input, at + 2) {
            Ok(found) => found,
            Err(e) => {
                return Err(e);
            },
        };
        match read_closer(tokens, next) {
            Ok(()) => {},
            Err(e) => {
                return Err(e);
            },
        }
        let symbol = intern_text(name, input, interner);
        let one = Arg::new(symbol, ty);
        assert(pairs(args@.push(one)) =~= pairs(args@).push(one@));
        args.push(one);
        at = next + 1;
    }
}

/// Reads the body of a function up to the closer that ends it, or to the
/// end of the tokens.
#[verifier::loop_isolation(false)]
fn parse_body(tokens: &Vec<Token>, input: &str, pos: usize, interner: &mut StringInterner) -> (r:
    Result<(Vec<Ast>, usize), ParserError>)
    requires
        all_fit(tokens@, input@.len()),
        pos <= tokens@.len(),
    ensures
        extends(final(interner)@, old(interner)@),
        distinct(old(interner)@) ==> distinct(final(interner)@),
        reads_many(
            r,
            body(tokens@, input@, pos as int, old(interner)@, Seq::empty()),
            final(interner)@,
        ),
        r is Ok ==> pos <= r->Ok_0.1 <= tokens@.len(),
    decreases tokens@.len() - pos, 1nat,
{
    let mut found: Vec<Ast> = Vec::new();
    let mut at: usize = pos;
    assert(trees(found@) =~= Seq::<Tree>::empty());
    loop
        invariant
            extends(interner@, old(interner)@),
            distinct(old(interner)@) ==> distinct(interner@),
            pos <= at <= tokens@.len(),
            body(tokens@, input@, pos as int, old(interner)@, Seq::empty()) == body(
                tokens@,
                input@,
                at as int,
                interner@,
                trees(found@),
            ),
        decreases tokens@.len() - at,
    {
        match parse_expr(tokens, input, at, interner) {
            Err(e) => {
                return Err(e);
            },
            Ok((None, next)) => {
                return Ok((found, next));
            },
            Ok((Some(piece), next)) => {
                let closed = next < tokens.len() && tokens[next].closerp();
                match &piece {
                    Ast::Identifier(_) | Ast::Primitive(_) => {
                        if !closed {
                            return Err(ParserError::NonfinalValue);
                        }
                    },
                    Ast::Asm(_) => {
                        if found.len() != 0 || !closed {
                            return Err(ParserError::Asm);
                        }
                    },
                    _ => {},
                }
                assert(trees(found@.push(piece)) =~= trees(found@).push(piece@));
                found.push(piece);
                at = next;
            },
        }
    }
}

/// The types of arguments.
fn argument_types(args: &Vec<Arg>) -> (types: Vec<Type>)
    ensures
        crate::ast::shapes(types@) == types_of(pairs(args@)),
{
    let mut types: Vec<Type> = Vec::new();
    let mut i: usize = 0;
    while i < args.len()
        invariant
            i <= args@.len(),
            types@.len() == i,
            forall|j: int| 0 <= j < i ==> types@[j]@ == args@[j].ty@,
        decreases args@.len() - i,
    {
        types.push(args[i].ty.copy());
        i += 1;
    }
    assert(crate::ast::shapes(types@) =~= types_of(pairs(args@)));
    types
}

/// Whether a function that states a type ends as it must: in a piece that
/// is no definition and takes no file in.
fn ends_in_value(found: &Vec<Ast>) -> (r: bool)
    ensures
        r == !(found@.len() == 0 || is_item(trees(found@).last())),
{
    if found.len() == 0 {
        return false;
    }
    match &found[found.len() - 1] {
        Ast::Include(_) | Ast::Define { .. } | Ast::Defn { .. } => false,
        _ => true,
    }
}

/// Reads the definition of a function, from the group of its name on.
fn parse_function(
    tokens: &Vec<Token>,
    input: &str,
    pos: usize,
    interner: &mut StringInterner,
) -> (r: Result<(Ast, usize), ParserError>)
    requires
        all_fit(tokens@, input@.len()),
    ensures
        extends(final(interner)@, old(interner)@),
        distinct(old(interner)@) ==> distinct(final(interner)@),
        reads_piece(r, function(tokens@, input@, pos as int, old(interner)@), final(interner)@),
        r is Ok ==> pos < r->Ok_0.1 <= tokens@.len(),
    decreases tokens@.len() - pos, 2nat,
{
    if pos >= tokens.len() {
        return Err(ParserError::EOI);
    }
    if !tokens[pos].openerp() {
        return Err(ParserError::Token);
    }
    let name = match read_name(tokens, pos + 1) {
        Ok(name) => name,
        Err(e) => {
            return Err(e);
        },
    };
    if pos + 2 >= tokens.len() {
        return Err(ParserError::EOI);
    }
    if !tokens[pos + 2].openerp() {
        return Err(ParserError::Token);
    }
    let symbol = intern_text(name, input, interner);
    let (args, at) = match parse_arguments(tokens, input, pos + 3, interner) {
        Ok(found) => found,
        Err(e) => {
            return Err(e);
        },
    };
    if at >= tokens.len() {
        return Err(ParserError::EOI);
    }
    let (ret, at) = if tokens[at].closerp() {
        (Type::Empty, at)
    } else {
        match parse_type(tokens, input, at) {
            Ok(found) => found,
            Err(e) => {
                return Err(e);
            },
        }
    };
    match read_closer(tokens, at) {
        Ok(()) => {},
        Err(e) => {
            return Err(e);
        },
    }
    let (found, next) = match parse_body(tokens, input, at + 1, interner) {
        Ok(found) => found,
        Err(e) => {
            return Err(e);
        },
    };
    if !ret.same(&Type::Empty) && !ends_in_value(&found) {
        return Err(ParserError::ReturnType);
    }
    let ghost stated = ret@;
    let ty = Type::Arrow(argument_types(&args), Box::new(ret));
    assert(ty@->Arrow_0 =~= types_of(pairs(args@)));
    assert(ty@ == Shape::Arrow(types_of(pairs(args@)), Box::new(stated)));
    let ast = Ast::Defn { name: symbol, ty, args, body: found };
    proof {
        lemma_view_of_function(symbol, ty, args, found);
        assert(ast@ == (Tree::Defn {
            name: symbol,
            ty: Shape::Arrow(types_of(pairs(args@)), Box::new(stated)),
            args: pairs(args@),
            body: trees(found@),
        }));
    }
    Ok((ast, next))
}

/// Whether the outcome of reading a program is what the grammar gives: the
/// pieces, and the names interned with them; or the error.
pub open spec fn parsed(
    tokens: Seq<Token>,
    input: Seq<char>,
    before: Seq<Seq<char>>,
    r: Result<Vec<Ast>, ParserError>,
    after: Seq<Seq<char>>,
) -> bool {
    match program(tokens, input, 0, before, Seq::empty()) {
        Err(e) => r is Err && r->Err_0 == e,
        Ok(step) => r is Ok && trees(r->Ok_0@) == step.value && after == step.names,
    }
}

/// Reads a program: the definitions and the files that it takes in.
#[verifier::loop_isolation(false)]
pub fn parse(tokens: Vec<Token>, input: &str, interner: &mut StringInterner) -> (r: Result<
    Vec<Ast>,
    ParserError,
>)
    requires
        all_fit(tokens@, input@.len()),
    ensures
        extends(final(interner)@, old(interner)@),
        distinct(old(interner)@) ==> distinct(final(interner)@),
        parsed(tokens@, input@, old(interner)@, r, final(interner)@),
{
    let mut found: Vec<Ast> = Vec::new();
    let mut pos: usize = 0;
    assert(trees(found@) =~= Seq::<Tree>::empty());
    while pos < tokens.len()
        invariant
            extends(interner@, old(interner)@),
            distinct(old(interner)@) ==> distinct(interner@),
            pos <= tokens@.len(),
            program(tokens@, input@, 0, old(interner)@, Seq::empty()) == program(
                tokens@,
                input@,
                pos as int,
                interner@,
                trees(found@),
            ),
        decreases tokens@.len() - pos,
    {
        if tokens[pos].commentp() {
            pos += 1;
            continue ;
        }
        match parse_expr(&tokens, input, pos, interner) {
            Err(e) => {
                return Err(e);
            },
            Ok((None, _)) => {
                return Err(ParserError::Closer);
            },
            Ok((Some(piece), next)) => {
                match &piece {
                    Ast::Include(_) | Ast::Define { .. } | Ast::Defn { .. } => {},
                    _ => {
                        return Err(ParserError::Item);
                    },
                }
                assert(trees(found@.push(piece)) =~= trees(found@).push(piece@));
                found.push(piece);
                pos = next;
            },
        }
    }
    Ok(found)
}

} // verus!
