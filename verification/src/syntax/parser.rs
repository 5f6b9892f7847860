//! The parser of assembly programs: from tokens to instructions with their
//! operands.
//!
//! A program is a row of labels, which are names that end in a colon, and of
//! instructions in brackets: a mnemonic and its operands. An operand is a
//! register name, or a group in brackets that begins with its mode:
//! `address`, `label`, or the type of a constant. Comments are skipped
//! wherever they stand.

use crate::bytes::fits_signed;
use crate::interner::{
    distinct, extends, intern, intern_all, lemma_intern_all_concat, lemma_intern_all_one, text_of,
    StringInterner, Symbol,
};
use crate::number::{parse_i16, parse_i32, parse_i8, parsed_i16, parsed_i32, parsed_i8};
use crate::syntax::error::Error;
use crate::syntax::{
    Constant, Displacement, Immediate, Instruction, NonZeroI16, NonZeroI32, NonZeroI8, Operand,
    Operation,
};
use crate::text::same_text;
use crate::token::{all_fit, significant, without_comments, Token};
use vstd::prelude::*;
use vstd::string::StrSliceExecFns;

verus! {

/// A displacement as plain numbers: its width in bytes and its value.
pub struct Distance {
    pub width: nat,
    pub value: int,
}

/// An operand with its names as text.
pub enum Piece {
    /// A register, by name.
    Register(Seq<char>),
    /// The memory at the address in a register, moved by a displacement
    /// where there is one.
    Address(Option<Distance>, Seq<char>),
    /// A typed constant.
    Constant(Immediate),
    /// A label, by name.
    Label(Seq<char>),
}

/// One entry of a program with its names as text.
pub enum Item {
    /// The definition of a label; the text ends in a colon.
    Label(Seq<char>),
    /// A mnemonic with its operands.
    Operation(Seq<char>, Seq<Piece>),
}

/// What was read, and the position behind it.
pub struct Parsed<T> {
    pub value: T,
    pub next: nat,
}

/// The displacement as plain numbers.
pub open spec fn distance_of(d: Displacement) -> Distance {
    Distance { width: d.width(), value: d.value() }
}

/// The operand with its names as text, if every symbol of it has one.
pub open spec fn piece_of(operand: Operand, names: Seq<Seq<char>>) -> Option<Piece> {
    match operand {
        Operand::Register(symbol) => match text_of(names, symbol) {
            Some(text) => Some(Piece::Register(text)),
            None => None,
        },
        Operand::Address(d, symbol) => match text_of(names, symbol) {
            Some(text) => Some(
                Piece::Address(
                    match d {
                        Some(d) => Some(distance_of(d)),
                        None => None,
                    },
                    text,
                ),
            ),
            None => None,
        },
        Operand::Constant(imm) => Some(Piece::Constant(imm)),
        Operand::Label(symbol) => match text_of(names, symbol) {
            Some(text) => Some(Piece::Label(text)),
            None => None,
        },
    }
}

/// Whether the operands, with their symbols read through `names`, are the
/// pieces.
pub open spec fn operands_spell(
    operands: Seq<Operand>,
    names: Seq<Seq<char>>,
    pieces: Seq<Piece>,
) -> bool {
    &&& operands.len() == pieces.len()
    &&& forall|i: int|
        0 <= i < operands.len() ==> piece_of(#[trigger] operands[i], names) == Some(pieces[i])
}

/// Whether the instruction, with its symbols read through `names`, is the
/// item.
pub open spec fn instruction_spells(
    instruction: Instruction,
    names: Seq<Seq<char>>,
    item: Item,
) -> bool {
    match instruction {
        Instruction::Label(symbol) => item is Label && text_of(names, symbol) == Some(item->Label_0),
        Instruction::Operation(operation) => item is Operation && text_of(
            names,
            operation.opcode,
        ) == Some(item->Operation_0) && operands_spell(
            operation.operands@,
            names,
            item->Operation_1,
        ),
    }
}

/// Whether the instructions, with their symbols read through `names`, are
/// the items.
pub open spec fn instructions_spell(
    instructions: Seq<Instruction>,
    names: Seq<Seq<char>>,
    items: Seq<Item>,
) -> bool {
    &&& instructions.len() == items.len()
    &&& forall|i: int|
        0 <= i < instructions.len() ==> instruction_spells(
            #[trigger] instructions[i],
            names,
            items[i],
        )
}

/// The token at a position, or the error that there is none.
pub open spec fn token_at(tokens: Seq<Token>, pos: nat) -> Result<Token, Error> {
    if pos < tokens.len() {
        Ok(tokens[pos as int])
    } else {
        Err(Error::EndOfInput)
    }
}

/// That a closer stands at a position.
pub open spec fn closer_at(tokens: Seq<Token>, pos: nat) -> Result<(), Error> {
    match token_at(tokens, pos) {
        Err(e) => Err(e),
        Ok(token) => if token.is_closer() {
            Ok(())
        } else {
            Err(Error::Token)
        },
    }
}

/// The text of the name at a position.
pub open spec fn symbol_at(tokens: Seq<Token>, input: Seq<char>, pos: nat) -> Result<
    Seq<char>,
    Error,
> {
    match token_at(tokens, pos) {
        Err(e) => Err(e),
        Ok(token) => if token is Symbol {
            Ok(token.text(input))
        } else {
            Err(Error::Token)
        },
    }
}

/// The constant of type `ty` at a position, with the closer behind it. A
/// number with a fraction is of no type, and a number with a minus sign of
/// no unsigned one.
pub open spec fn constant_at(ty: Constant, tokens: Seq<Token>, input: Seq<char>, pos: nat) -> Result<
    Parsed<Piece>,
    Error,
> {
    match token_at(tokens, pos) {
        Err(e) => Err(e),
        Ok(token) => {
            let text = token.text(input);
            if !(token is Integer) && !(token is Float) {
                Err(Error::Token)
            } else if token is Float || (ty.is_unsigned() && text.len() > 0 && text[0] == '-') {
                Err(Error::ConstantType)
            } else {
                match closer_at(tokens, pos + 1) {
                    Err(e) => Err(e),
                    Ok(()) => match Immediate::parsed(text, ty) {
                        None => Err(Error::InvalidDisplacement),
                        Some(imm) => Ok(Parsed { value: Piece::Constant(imm), next: pos + 2 }),
                    },
                }
            }
        },
    }
}

/// The label operand at a position, with the closer behind it.
pub open spec fn label_at(tokens: Seq<Token>, input: Seq<char>, pos: nat) -> Result<
    Parsed<Piece>,
    Error,
> {
    match symbol_at(tokens, input, pos) {
        Err(e) => Err(e),
        Ok(text) => match closer_at(tokens, pos + 1) {
            Err(e) => Err(e),
            Ok(()) => Ok(Parsed { value: Piece::Label(text), next: pos + 2 }),
        },
    }
}

/// One of the two parts of a displacement group.
pub enum Part {
    /// A register name.
    Name(Token),
    /// A number in brackets behind its type.
    Typed { ty: Token, value: Token },
}

/// The part of a displacement group at a position: a name, or a group of a
/// type and a whole number.
pub open spec fn part_at(tokens: Seq<Token>, pos: nat) -> Result<Parsed<Part>, Error> {
    match token_at(tokens, pos) {
        Err(e) => Err(e),
        Ok(token) => if token is Symbol {
            Ok(Parsed { value: Part::Name(token), next: pos + 1 })
        } else if token.is_opener() {
            match token_at(tokens, pos + 1) {
                Err(e) => Err(e),
                Ok(ty) => if !(ty is Symbol) {
                    Err(Error::Token)
                } else {
                    match token_at(tokens, pos + 2) {
                        Err(e) => Err(e),
                        Ok(value) => if !(value is Integer) {
                            Err(Error::Token)
                        } else {
                            match closer_at(tokens, pos + 3) {
                                Err(e) => Err(e),
                                Ok(()) => Ok(
                                    Parsed { value: Part::Typed { ty, value }, next: pos + 4 },
                                ),
                            }
                        },
                    }
                },
            }
        } else {
            Err(Error::Token)
        },
    }
}

/// The displacement that a number of a type spells: a signed number of 8, 16
/// or 32 bits other than zero.
pub open spec fn distance_spelled(ty: Seq<char>, text: Seq<char>) -> Result<Distance, Error> {
    match Constant::from_name(ty) {
        Some(Constant::I8) => match parsed_i8(text) {
            Some(v) => if v != 0 {
                Ok(Distance { width: 1, value: v as int })
            } else {
                Err(Error::InvalidDisplacement)
            },
            None => Err(Error::InvalidDisplacement),
        },
        Some(Constant::I16) => match parsed_i16(text) {
            Some(v) => if v != 0 {
                Ok(Distance { width: 2, value: v as int })
            } else {
                Err(Error::InvalidDisplacement)
            },
            None => Err(Error::InvalidDisplacement),
        },
        Some(Constant::I32) => match parsed_i32(text) {
            Some(v) => if v != 0 {
                Ok(Distance { width: 4, value: v as int })
            } else {
                Err(Error::InvalidDisplacement)
            },
            None => Err(Error::InvalidDisplacement),
        },
        _ => Err(Error::Mode),
    }
}

/// The displacement with the sign that the operator gives it: `+` leaves it,
/// `-` makes it its opposite, which must fit its width.
pub open spec fn signed_distance(op: Seq<char>, distance: Distance) -> Result<Distance, Error> {
    if op == "+"@ {
        Ok(distance)
    } else if op == "-"@ {
        if fits_signed(-distance.value, distance.width) {
            Ok(Distance { width: distance.width, value: -distance.value })
        } else {
            Err(Error::InvalidDisplacement)
        }
    } else {
        Err(Error::Token)
    }
}

/// The memory operand with a displacement at a position, behind the opener
/// of its group: an operator, then a register name and a typed number in
/// either order, then the closer.
pub open spec fn displacement_at(tokens: Seq<Token>, input: Seq<char>, pos: nat) -> Result<
    Parsed<Piece>,
    Error,
> {
    match symbol_at(tokens, input, pos) {
        Err(e) => Err(e),
        Ok(op) => match part_at(tokens, pos + 1) {
            Err(e) => Err(e),
            Ok(one) => match part_at(tokens, one.next) {
                Err(e) => Err(e),
                Ok(two) => match (one.value, two.value) {
                    (Part::Name(register), Part::Typed { ty, value }) => displacement_of(
                        tokens,
                        input,
                        op,
                        register,
                        ty,
                        value,
                        two.next,
                    ),
                    (Part::Typed { ty, value }, Part::Name(register)) => displacement_of(
                        tokens,
                        input,
                        op,
                        register,
                        ty,
                        value,
                        two.next,
                    ),
                    _ => Err(Error::Token),
                },
            },
        },
    }
}

/// The memory operand that the parts of a displacement group give, once the
/// closer of the group is found at `pos`.
pub open spec fn displacement_of(
    tokens: Seq<Token>,
    input: Seq<char>,
    op: Seq<char>,
    register: Token,
    ty: Token,
    value: Token,
    pos: nat,
) -> Result<Parsed<Piece>, Error> {
    match closer_at(tokens, pos) {
        Err(e) => Err(e),
        Ok(()) => match distance_spelled(ty.text(input), value.text(input)) {
            Err(e) => Err(e),
            Ok(distance) => match signed_distance(op, distance) {
                Err(e) => Err(e),
                Ok(distance) => Ok(
                    Parsed {
                        value: Piece::Address(Some(distance), register.text(input)),
                        next: pos + 1,
                    },
                ),
            },
        },
    }
}

/// No spelling gives a displacement of zero: a number that spells zero is
/// refused, whatever its type, and the operator in front of a number leaves
/// it other than zero.
pub proof fn lemma_spelled_distance_is_never_zero(ty: Seq<char>, text: Seq<char>, op: Seq<char>)
    ensures
        distance_spelled(ty, text) is Ok ==> distance_spelled(ty, text)->Ok_0.value != 0,
        distance_spelled(ty, text) is Ok && signed_distance(op, distance_spelled(ty, text)->Ok_0)
            is Ok ==> signed_distance(op, distance_spelled(ty, text)->Ok_0)->Ok_0.value != 0,
        Constant::from_name(ty) == Some(Constant::I8) && parsed_i8(text) == Some(0i8)
            ==> distance_spelled(ty, text) == Err::<Distance, Error>(Error::InvalidDisplacement),
        Constant::from_name(ty) == Some(Constant::I16) && parsed_i16(text) == Some(0i16)
            ==> distance_spelled(ty, text) == Err::<Distance, Error>(Error::InvalidDisplacement),
        Constant::from_name(ty) == Some(Constant::I32) && parsed_i32(text) == Some(0i32)
            ==> distance_spelled(ty, text) == Err::<Distance, Error>(Error::InvalidDisplacement),
{
}

/// A displacement group never gives a memory operand with a displacement of
/// zero: what it gives is a memory operand with a displacement, and that
/// displacement is not zero.
pub proof fn lemma_displacement_is_never_zero(tokens: Seq<Token>, input: Seq<char>, pos: nat)
    requires
        displacement_at(tokens, input, pos) is Ok,
    ensures
        displacement_at(tokens, input, pos)->Ok_0.value matches Piece::Address(Some(distance), _)
            && distance.value != 0,
{
}

/// The memory operand at a position, with the closer behind it: a register
/// name, or a displacement group.
pub open spec fn address_at(tokens: Seq<Token>, input: Seq<char>, pos: nat) -> Result<
    Parsed<Piece>,
    Error,
> {
    match token_at(tokens, pos) {
        Err(e) => Err(e),
        Ok(token) => if token.is_opener() {
            match displacement_at(tokens, input, pos + 1) {
                Err(e) => Err(e),
                Ok(parsed) => match closer_at(tokens, parsed.next) {
                    Err(e) => Err(e),
                    Ok(()) => Ok(Parsed { value: parsed.value, next: parsed.next + 1 }),
                },
            }
        } else if token is Symbol {
            match closer_at(tokens, pos + 1) {
                Err(e) => Err(e),
                Ok(()) => Ok(
                    Parsed { value: Piece::Address(None, token.text(input)), next: pos + 2 },
                ),
            }
        } else {
            Err(Error::Token)
        },
    }
}

/// The operand in brackets at a position, behind its opener: its mode, then
/// what the mode asks for.
pub open spec fn group_at(tokens: Seq<Token>, input: Seq<char>, pos: nat) -> Result<
    Parsed<Piece>,
    Error,
> {
    match symbol_at(tokens, input, pos) {
        Err(e) => Err(e),
        Ok(mode) => if mode == "address"@ {
            address_at(tokens, input, pos + 1)
        } else if mode == "label"@ {
            label_at(tokens, input, pos + 1)
        } else {
            match Constant::from_name(mode) {
                Some(ty) => constant_at(ty, tokens, input, pos + 1),
                None => Err(Error::Mode),
            }
        },
    }
}

/// The operand at a position, or `None` for the closer that ends the
/// operands.
#[verifier::opaque]
pub open spec fn operand_at(tokens: Seq<Token>, input: Seq<char>, pos: nat) -> Result<
    Parsed<Option<Piece>>,
    Error,
> {
    match token_at(tokens, pos) {
        Err(e) => Err(e),
        Ok(token) => if token.is_closer() {
            Ok(Parsed { value: None, next: pos + 1 })
        } else if token.is_opener() {
            match group_at(tokens, input, pos + 1) {
                Err(e) => Err(e),
                Ok(parsed) => Ok(Parsed { value: Some(parsed.value), next: parsed.next }),
            }
        } else if token is Integer || token is Float {
            Err(Error::NoType)
        } else if token is Symbol {
            Ok(Parsed { value: Some(Piece::Register(token.text(input))), next: pos + 1 })
        } else {
            Err(Error::Token)
        },
    }
}

/// The operands from a position on, up to the closer that ends them.
pub open spec fn operands_from(tokens: Seq<Token>, input: Seq<char>, pos: nat) -> Result<
    Parsed<Seq<Piece>>,
    Error,
>
    decreases tokens.len() - pos,
{
    match operand_at(tokens, input, pos) {
        Err(e) => Err(e),
        Ok(parsed) => match parsed.value {
            None => Ok(Parsed { value: Seq::empty(), next: parsed.next }),
            Some(piece) => if pos < parsed.next <= tokens.len() {
                match operands_from(tokens, input, parsed.next) {
                    Err(e) => Err(e),
                    Ok(rest) => Ok(Parsed { value: seq![piece] + rest.value, next: rest.next }),
                }
            } else {
                Err(Error::EndOfInput)
            },
        },
    }
}

/// The instruction at a position, behind its opener: the mnemonic, then the
/// operands.
pub open spec fn operation_at(tokens: Seq<Token>, input: Seq<char>, pos: nat) -> Result<
    Parsed<Item>,
    Error,
> {
    match symbol_at(tokens, input, pos) {
        Err(e) => Err(e),
        Ok(opcode) => match operands_from(tokens, input, pos + 1) {
            Err(e) => Err(e),
            Ok(operands) => Ok(
                Parsed { value: Item::Operation(opcode, operands.value), next: operands.next },
            ),
        },
    }
}

/// Whether a name defines a label: whether it ends in a colon.
pub open spec fn is_label_text(text: Seq<char>) -> bool {
    text.len() > 0 && text.last() == ':'
}

/// The program from a position on. Inline assembly ends at the closer of the
/// group that holds it; a program of its own ends with the tokens.
pub open spec fn items_from(tokens: Seq<Token>, input: Seq<char>, pos: nat, inlinep: bool) -> Result<
    Seq<Item>,
    Error,
>
    decreases tokens.len() - pos,
{
    if pos >= tokens.len() {
        if inlinep {
            Err(Error::EndOfInput)
        } else {
            Ok(Seq::empty())
        }
    } else {
        let token = tokens[pos as int];
        if token.is_closer() {
            if inlinep {
                Ok(Seq::empty())
            } else {
                Err(Error::Closer)
            }
        } else if token is Symbol {
            if is_label_text(token.text(input)) {
                match items_from(tokens, input, pos + 1, inlinep) {
                    Err(e) => Err(e),
                    Ok(rest) => Ok(seq![Item::Label(token.text(input))] + rest),
                }
            } else {
                Err(Error::Opener)
            }
        } else if token.is_opener() {
            match operation_at(tokens, input, pos + 1) {
                Err(e) => Err(e),
                Ok(parsed) => if pos < parsed.next <= tokens.len() {
                    match items_from(tokens, input, parsed.next, inlinep) {
                        Err(e) => Err(e),
                        Ok(rest) => Ok(seq![parsed.value] + rest),
                    }
                } else {
                    Err(Error::EndOfInput)
                },
            }
        } else {
            Err(Error::Opener)
        }
    }
}

/// The program that the tokens spell, with its names as text.
pub open spec fn program(tokens: Seq<Token>, input: Seq<char>, inlinep: bool) -> Result<
    Seq<Item>,
    Error,
> {
    items_from(significant(tokens), input, 0, inlinep)
}

/// The names of an operand, which are interned when it is read.
pub open spec fn names_of_piece(piece: Piece) -> Seq<Seq<char>> {
    match piece {
        Piece::Register(text) => seq![text],
        Piece::Address(_, text) => seq![text],
        Piece::Constant(_) => Seq::empty(),
        Piece::Label(text) => seq![text],
    }
}

/// The names of the operands in their order.
pub open spec fn names_of_pieces(pieces: Seq<Piece>) -> Seq<Seq<char>>
    decreases pieces.len(),
{
    if pieces.len() == 0 {
        Seq::empty()
    } else {
        names_of_pieces(pieces.drop_last()) + names_of_piece(pieces.last())
    }
}

/// The names of an entry in the order in which they are interned: those of
/// the operands, then the mnemonic.
pub open spec fn names_of_item(item: Item) -> Seq<Seq<char>> {
    match item {
        Item::Label(text) => seq![text],
        Item::Operation(opcode, pieces) => names_of_pieces(pieces).push(opcode),
    }
}

/// The names of a program in the order in which they are interned.
pub open spec fn names_of_items(items: Seq<Item>) -> Seq<Seq<char>>
    decreases items.len(),
{
    if items.len() == 0 {
        Seq::empty()
    } else {
        names_of_items(items.drop_last()) + names_of_item(items.last())
    }
}

/// A symbol keeps its text when the table of names grows.
pub proof fn lemma_piece_of_extends(operand: Operand, names: Seq<Seq<char>>, more: Seq<Seq<char>>)
    requires
        extends(more, names),
        piece_of(operand, names) is Some,
    ensures
        piece_of(operand, more) == piece_of(operand, names),
{
}

/// Operands keep their spelling when the table of names grows.
pub proof fn lemma_operands_spell_extends(
    operands: Seq<Operand>,
    names: Seq<Seq<char>>,
    more: Seq<Seq<char>>,
    pieces: Seq<Piece>,
)
    requires
        extends(more, names),
        operands_spell(operands, names, pieces),
    ensures
        operands_spell(operands, more, pieces),
{
    assert forall|i: int| 0 <= i < operands.len() implies piece_of(
        #[trigger] operands[i],
        more,
    ) == Some(pieces[i]) by {
        lemma_piece_of_extends(operands[i], names, more);
    }
}

/// Instructions keep their spelling when the table of names grows.
pub proof fn lemma_instructions_spell_extends(
    instructions: Seq<Instruction>,
    names: Seq<Seq<char>>,
    more: Seq<Seq<char>>,
    items: Seq<Item>,
)
    requires
        extends(more, names),
        instructions_spell(instructions, names, items),
    ensures
        instructions_spell(instructions, more, items),
{
    assert forall|i: int| 0 <= i < instructions.len() implies instruction_spells(
        #[trigger] instructions[i],
        more,
        items[i],
    ) by {
        assert(instruction_spells(instructions[i], names, items[i]));
        match instructions[i] {
            Instruction::Label(_) => {},
            Instruction::Operation(operation) => {
                lemma_operands_spell_extends(
                    operation.operands@,
                    names,
                    more,
                    items[i]->Operation_1,
                );
            },
        }
    }
}

/// The pieces read before, followed by those that are still to come.
pub open spec fn join(read: Seq<Piece>, rest: Result<Parsed<Seq<Piece>>, Error>) -> Result<
    Parsed<Seq<Piece>>,
    Error,
> {
    match rest {
        Ok(rest) => Ok(Parsed { value: read + rest.value, next: rest.next }),
        Err(e) => Err(e),
    }
}

/// The items read before, followed by those that are still to come.
pub open spec fn chain(read: Seq<Item>, rest: Result<Seq<Item>, Error>) -> Result<
    Seq<Item>,
    Error,
> {
    match rest {
        Ok(rest) => Ok(read + rest),
        Err(e) => Err(e),
    }
}

/// Whether a parser of one operand did what `outcome` says: on an operand, it
/// stands behind the operand and has added it to the operands; on an error,
/// it reports the error.
pub open spec fn pushed(
    outcome: Result<Parsed<Piece>, Error>,
    before: Seq<Operand>,
    after: Seq<Operand>,
    names: Seq<Seq<char>>,
    position: nat,
    result: Result<(), Error>,
) -> bool {
    match outcome {
        Ok(parsed) => {
            &&& result is Ok
            &&& position == parsed.next
            &&& after.len() == before.len() + 1
            &&& after.drop_last() == before
            &&& piece_of(after.last(), names) == Some(parsed.value)
        },
        Err(e) => result == Err::<(), Error>(e),
    }
}

/// A reader of tokens: the tokens and the position of the next one.
struct Parser<'a> {
    position: usize,
    tokens: &'a [Token],
}

impl<'a> Parser<'a> {
    fn new(tokens: &'a [Token]) -> (parser: Self)
        ensures
            parser.position == 0,
            parser.tokens@ == tokens@,
    {
        Parser { position: 0, tokens }
    }

    /// Reads the next token.
    fn next(&mut self) -> (r: Result<Token, Error>)
        requires
            old(self).position <= old(self).tokens@.len(),
        ensures
            final(self).tokens@ == old(self).tokens@,
            old(self).position <= final(self).position <= final(self).tokens@.len() <= usize::MAX,
            r == token_at(old(self).tokens@, old(self).position as nat),
            r is Ok ==> final(self).position == old(self).position + 1,
            r is Err ==> final(self).position == old(self).position,
    {
        if self.position < self.tokens.len() {
            self.position += 1;
            Ok(self.tokens[self.position - 1])
        } else {
            Err(Error::EndOfInput)
        }
    }

    /// Reads the next token, which has to be a closer.
    fn closer(&mut self) -> (r: Result<(), Error>)
        requires
            old(self).position <= old(self).tokens@.len(),
        ensures
            final(self).tokens@ == old(self).tokens@,
            old(self).position <= final(self).position <= final(self).tokens@.len() <= usize::MAX,
            r == closer_at(old(self).tokens@, old(self).position as nat),
            r is Ok ==> final(self).position == old(self).position + 1,
    {
        match self.next() {
            Err(e) => Err(e),
            Ok(token) => if token.closerp() {
                Ok(())
            } else {
                Err(Error::Token)
            },
        }
    }

    /// Reads the next token, which has to be a name.
    fn symbol(&mut self) -> (r: Result<Token, Error>)
        requires
            old(self).position <= old(self).tokens@.len(),
        ensures
            final(self).tokens@ == old(self).tokens@,
            old(self).position <= final(self).position <= final(self).tokens@.len() <= usize::MAX,
            match token_at(old(self).tokens@, old(self).position as nat) {
                Err(e) => r == Err::<Token, Error>(e),
                Ok(token) => if token is Symbol {
                    r == Ok::<Token, Error>(token)
                } else {
                    r == Err::<Token, Error>(Error::Token)
                },
            },
            r is Ok ==> final(self).position == old(self).position + 1,
    {
        match self.next() {
            Err(e) => Err(e),
            Ok(token) => if token.is_symbol() {
                Ok(token)
            } else {
                Err(Error::Token)
            },
        }
    }
}

/// The symbol of a text.
fn get_symbol(text: &str, interner: &mut StringInterner) -> (symbol: Symbol)
    ensures
        final(interner)@ == intern(old(interner)@, text@),
        final(interner)@ == intern_all(old(interner)@, seq![text@]),
        extends(final(interner)@, old(interner)@),
        distinct(old(interner)@) ==> distinct(final(interner)@),
        text_of(final(interner)@, symbol) == Some(text@),
{
    proof {
        lemma_intern_all_one(interner@, text@);
    }
    interner.get_symbol(text.to_owned())
}

/// Reads a constant of type `ty` and the closer behind it.
fn parse_constant(ty: Constant, parser: &mut Parser, operands: &mut Vec<Operand>, input: &str) -> (r:
    Result<(), Error>)
    requires
        old(parser).position <= old(parser).tokens@.len(),
        all_fit(old(parser).tokens@, input@.len()),
    ensures
        final(parser).tokens@ == old(parser).tokens@,
        old(parser).position <= final(parser).position <= final(parser).tokens@.len(),
        r is Err ==> final(operands)@ == old(operands)@,
        pushed(
            constant_at(ty, old(parser).tokens@, input@, old(parser).position as nat),
            old(operands)@,
            final(operands)@,
            Seq::empty(),
            final(parser).position as nat,
            r,
        ),
{
    let t = match parser.next() {
        Err(e) => {
            return Err(e);
        },
        Ok(t) => t,
    };
    if !t.is_integer() && !t.is_float() {
        return Err(Error::Token);
    }
    let text = t.as_str(input);
    let negative = text.unicode_len() > 0 && text.get_char(0) == '-';
    if t.is_float() || (ty.unsignedp() && negative) {
        return Err(Error::ConstantType);
    }
    match parser.closer() {
        Err(e) => {
            return Err(e);
        },
        Ok(()) => {},
    }
    match Immediate::from(text, ty) {
        Err(_) => Err(Error::InvalidDisplacement),
        Ok(imm) => {
            assert(operands@.push(Operand::Constant(imm)).drop_last() =~= operands@);
            operands.push(Operand::Constant(imm));
            Ok(())
        },
    }
}

/// Reads a memory operand and the closer behind it.
fn parse_address(
    parser: &mut Parser,
    operands: &mut Vec<Operand>,
    input: &str,
    interner: &mut StringInterner,
) -> (r: Result<(), Error>)
    requires
        old(parser).position <= old(parser).tokens@.len(),
        all_fit(old(parser).tokens@, input@.len()),
    ensures
        final(parser).tokens@ == old(parser).tokens@,
        old(parser).position <= final(parser).position <= final(parser).tokens@.len(),
        extends(final(interner)@, old(interner)@),
        distinct(old(interner)@) ==> distinct(final(interner)@),
        r is Ok ==> final(interner)@ == intern_all(
            old(interner)@,
            names_of_piece(
                address_at(old(parser).tokens@, input@, old(parser).position as nat)->Ok_0.value,
            ),
        ),
        r is Err ==> final(operands)@ == old(operands)@,
        pushed(
            address_at(old(parser).tokens@, input@, old(parser).position as nat),
            old(operands)@,
            final(operands)@,
            final(interner)@,
            final(parser).position as nat,
            r,
        ),
{
    let t = match parser.next() {
        Err(e) => {
            return Err(e);
        },
        Ok(t) => t,
    };
    let operand = if t.openerp() {
        match parse_displacement(parser, input, interner) {
            Err(e) => {
                return Err(e);
            },
            Ok(operand) => operand,
        }
    } else if t.is_symbol() {
        Operand::Address(None, get_symbol(t.as_str(input), interner))
    } else {
        return Err(Error::Token);
    };
    match parser.closer() {
        Err(e) => Err(e),
        Ok(()) => {
            assert(operands@.push(operand).drop_last() =~= operands@);
            operands.push(operand);
            Ok(())
        },
    }
}

/// Reads a label operand and the closer behind it.
fn parse_label(
    parser: &mut Parser,
    operands: &mut Vec<Operand>,
    input: &str,
    interner: &mut StringInterner,
) -> (r: Result<(), Error>)
    requires
        old(parser).position <= old(parser).tokens@.len(),
        all_fit(old(parser).tokens@, input@.len()),
    ensures
        final(parser).tokens@ == old(parser).tokens@,
        old(parser).position <= final(parser).position <= final(parser).tokens@.len(),
        extends(final(interner)@, old(interner)@),
        distinct(old(interner)@) ==> distinct(final(interner)@),
        r is Ok ==> final(interner)@ == intern_all(
            old(interner)@,
            names_of_piece(
                label_at(old(parser).tokens@, input@, old(parser).position as nat)->Ok_0.value,
            ),
        ),
        r is Err ==> final(operands)@ == old(operands)@,
        pushed(
            label_at(old(parser).tokens@, input@, old(parser).position as nat),
            old(operands)@,
            final(operands)@,
            final(interner)@,
            final(parser).position as nat,
            r,
        ),
{
    let t = match parser.symbol() {
        Err(e) => {
            return Err(e);
        },
        Ok(t) => t,
    };
    match parser.closer() {
        Err(e) => Err(e),
        Ok(()) => {
            let operand = Operand::Label(get_symbol(t.as_str(input), interner));
            assert(operands@.push(operand).drop_last() =~= operands@);
            operands.push(operand);
            Ok(())
        },
    }
}

/// One of the two parts of a displacement group.
enum ReadPart {
    Name(Token),
    Typed { ty: Token, value: Token },
}

impl ReadPart {
    spec fn view(self) -> Part {
        match self {
            ReadPart::Name(token) => Part::Name(token),
            ReadPart::Typed { ty, value } => Part::Typed { ty, value },
        }
    }
}

/// Reads one part of a displacement group.
fn parse_part(parser: &mut Parser) -> (r: Result<ReadPart, Error>)
    requires
        old(parser).position <= old(parser).tokens@.len(),
    ensures
        final(parser).tokens@ == old(parser).tokens@,
        old(parser).position <= final(parser).position <= final(parser).tokens@.len(),
        match part_at(old(parser).tokens@, old(parser).position as nat) {
            Ok(parsed) => r is Ok && r->Ok_0.view() == parsed.value && final(parser).position
                == parsed.next,
            Err(e) => r == Err::<ReadPart, Error>(e),
        },
{
    let t = match parser.next() {
        Err(e) => {
            return Err(e);
        },
        Ok(t) => t,
    };
    if t.is_symbol() {
        Ok(ReadPart::Name(t))
    } else if t.openerp() {
        let ty = match parser.symbol() {
            Err(e) => {
                return Err(e);
            },
            Ok(ty) => ty,
        };
        let value = match parser.next() {
            Err(e) => {
                return Err(e);
            },
            Ok(value) => value,
        };
        if !value.is_integer() {
            return Err(Error::Token);
        }
        match parser.closer() {
            Err(e) => Err(e),
            Ok(()) => Ok(ReadPart::Typed { ty, value }),
        }
    } else {
        Err(Error::Token)
    }
}

/// The displacement that a number of a type spells.
fn read_distance(ty: &str, text: &str) -> (r: Result<Displacement, Error>)
    ensures
        match distance_spelled(ty@, text@) {
            Ok(distance) => r is Ok && distance_of(r->Ok_0) == distance,
            Err(e) => r == Err::<Displacement, Error>(e),
        },
{
    match Constant::from_str(ty) {
        Some(Constant::I8) => match parse_i8(text) {
            Ok(v) => match NonZeroI8::new(v) {
                Some(d) => Ok(Displacement::Disp8(d)),
                None => Err(Error::InvalidDisplacement),
            },
            Err(_) => Err(Error::InvalidDisplacement),
        },
        Some(Constant::I16) => match parse_i16(text) {
            Ok(v) => match NonZeroI16::new(v) {
                Some(d) => Ok(Displacement::Disp16(d)),
                None => Err(Error::InvalidDisplacement),
            },
            Err(_) => Err(Error::InvalidDisplacement),
        },
        Some(Constant::I32) => match parse_i32(text) {
            Ok(v) => match NonZeroI32::new(v) {
                Some(d) => Ok(Displacement::Disp32(d)),
                None => Err(Error::InvalidDisplacement),
            },
            Err(_) => Err(Error::InvalidDisplacement),
        },
        _ => Err(Error::Mode),
    }
}

/// Reads a memory operand with a displacement, behind the opener of its
/// group, up to the closer of the group.
fn parse_displacement(parser: &mut Parser, input: &str, interner: &mut StringInterner) -> (r:
    Result<Operand, Error>)
    requires
        old(parser).position <= old(parser).tokens@.len(),
        all_fit(old(parser).tokens@, input@.len()),
    ensures
        final(parser).tokens@ == old(parser).tokens@,
        old(parser).position <= final(parser).position <= final(parser).tokens@.len(),
        extends(final(interner)@, old(interner)@),
        distinct(old(interner)@) ==> distinct(final(interner)@),
        r is Ok ==> final(interner)@ == intern_all(
            old(interner)@,
            names_of_piece(
                displacement_at(old(parser).tokens@, input@, old(parser).position as nat)->Ok_0.value,
            ),
        ),
        match displacement_at(old(parser).tokens@, input@, old(parser).position as nat) {
            Ok(parsed) => r is Ok && final(parser).position == parsed.next && piece_of(
                r->Ok_0,
                final(interner)@,
            ) == Some(parsed.value),
            Err(e) => r == Err::<Operand, Error>(e),
        },
{
    let op = match parser.symbol() {
        Err(e) => {
            return Err(e);
        },
        Ok(t) => t.as_str(input),
    };
    let one = match parse_part(parser) {
        Err(e) => {
            return Err(e);
        },
        Ok(one) => one,
    };
    let two = match parse_part(parser) {
        Err(e) => {
            return Err(e);
        },
        Ok(two) => two,
    };
    let (register, ty, value) = match (one, two) {
        (ReadPart::Name(register), ReadPart::Typed { ty, value }) => (register, ty, value),
        (ReadPart::Typed { ty, value }, ReadPart::Name(register)) => (register, ty, value),
        _ => {
            return Err(Error::Token);
        },
    };
    match parser.closer() {
        Err(e) => {
            return Err(e);
        },
        Ok(()) => {},
    }
    let mut displacement = match read_distance(ty.as_str(input), value.as_str(input)) {
        Err(e) => {
            return Err(e);
        },
        Ok(displacement) => displacement,
    };
    if !same_text(op, "+") {
        if !same_text(op, "-") {
            return Err(Error::Token);
        }
        if !displacement.can_negate() {
            return Err(Error::InvalidDisplacement);
        }
        displacement.negate();
    }
    Ok(Operand::Address(Some(displacement), get_symbol(register.as_str(input), interner)))
}

/// Reads one operand, or the closer that ends the operands.
fn parse_operand(
    parser: &mut Parser,
    operands: &mut Vec<Operand>,
    input: &str,
    interner: &mut StringInterner,
) -> (r: Result<bool, Error>)
    requires
        old(parser).position <= old(parser).tokens@.len(),
        all_fit(old(parser).tokens@, input@.len()),
    ensures
        final(parser).tokens@ == old(parser).tokens@,
        old(parser).position < final(parser).position <= final(parser).tokens@.len() || r is Err,
        extends(final(interner)@, old(interner)@),
        distinct(old(interner)@) ==> distinct(final(interner)@),
        r == Ok::<bool, Error>(true) ==> final(interner)@ == intern_all(
            old(interner)@,
            names_of_piece(
                operand_at(old(parser).tokens@, input@, old(parser).position as nat)->Ok_0.value->0,
            ),
        ),
        r == Ok::<bool, Error>(false) ==> final(interner)@ == old(interner)@,
        r is Err ==> final(operands)@ == old(operands)@,
        match operand_at(old(parser).tokens@, input@, old(parser).position as nat) {
            Err(e) => r == Err::<bool, Error>(e),
            Ok(parsed) => {
                &&& final(parser).position == parsed.next
                &&& match parsed.value {
                    None => r == Ok::<bool, Error>(false) && final(operands)@ == old(operands)@,
                    Some(piece) => {
                        &&& r == Ok::<bool, Error>(true)
                        &&& final(operands)@.len() == old(operands)@.len() + 1
                        &&& final(operands)@.drop_last() == old(operands)@
                        &&& piece_of(final(operands)@.last(), final(interner)@) == Some(piece)
                    },
                }
            },
        },
{
    reveal(operand_at);
    let t = match parser.next() {
        Err(e) => {
            return Err(e);
        },
        Ok(t) => t,
    };
    if t.closerp() {
        Ok(false)
    } else if t.openerp() {
        let mode = match parser.symbol() {
            Err(e) => {
                return Err(e);
            },
            Ok(t) => t.as_str(input),
        };
        let done = if same_text(mode, "address") {
            parse_address(parser, operands, input, interner)
        } else if same_text(mode, "label") {
            parse_label(parser, operands, input, interner)
        } else {
            match Constant::from_str(mode) {
                Some(ty) => parse_constant(ty, parser, operands, input),
                None => Err(Error::Mode),
            }
        };
        match done {
            Err(e) => Err(e),
            Ok(()) => Ok(true),
        }
    } else if t.is_integer() || t.is_float() {
        Err(Error::NoType)
    } else if t.is_symbol() {
        let operand = Operand::Register(get_symbol(t.as_str(input), interner));
        assert(operands@.push(operand).drop_last() =~= operands@);
        operands.push(operand);
        Ok(true)
    } else {
        Err(Error::Token)
    }
}

/// Reads an instruction behind its opener: the mnemonic and the operands.
fn parse_operation(parser: &mut Parser, input: &str, interner: &mut StringInterner) -> (r: Result<
    Instruction,
    Error,
>)
    requires
        old(parser).position <= old(parser).tokens@.len(),
        all_fit(old(parser).tokens@, input@.len()),
    ensures
        final(parser).tokens@ == old(parser).tokens@,
        old(parser).position < final(parser).position <= final(parser).tokens@.len() || r is Err,
        extends(final(interner)@, old(interner)@),
        distinct(old(interner)@) ==> distinct(final(interner)@),
        r is Ok ==> final(interner)@ == intern_all(
            old(interner)@,
            names_of_item(
                operation_at(old(parser).tokens@, input@, old(parser).position as nat)->Ok_0.value,
            ),
        ),
        match operation_at(old(parser).tokens@, input@, old(parser).position as nat) {
            Err(e) => r == Err::<Instruction, Error>(e),
            Ok(parsed) => r is Ok && final(parser).position == parsed.next && instruction_spells(
                r->Ok_0,
                final(interner)@,
                parsed.value,
            ),
        },
{
    let opcode = match parser.symbol() {
        Err(e) => {
            return Err(e);
        },
        Ok(t) => t,
    };
    let ghost start = parser.position as nat;
    let ghost tokens = parser.tokens@;
    let ghost pieces: Seq<Piece> = Seq::empty();
    let mut operands: Vec<Operand> = Vec::new();
    loop
        invariant_except_break
            operands_from(tokens, input@, start) == join(
                pieces,
                operands_from(tokens, input@, parser.position as nat),
            ),
        invariant
            parser.tokens@ == tokens,
            tokens == old(parser).tokens@,
            start == old(parser).position + 1,
            symbol_at(tokens, input@, old(parser).position as nat) == Ok::<Seq<char>, Error>(
                opcode.text(input@),
            ),
            opcode.place().fits(input@.len()),
            start <= parser.position <= tokens.len(),
            all_fit(tokens, input@.len()),
            extends(interner@, old(interner)@),
            distinct(old(interner)@) ==> distinct(interner@),
            interner@ == intern_all(old(interner)@, names_of_pieces(pieces)),
            operands_spell(operands@, interner@, pieces),
        ensures
            parser.tokens@ == tokens,
            start < parser.position <= tokens.len(),
            opcode.place().fits(input@.len()),
            extends(interner@, old(interner)@),
            distinct(old(interner)@) ==> distinct(interner@),
            interner@ == intern_all(old(interner)@, names_of_pieces(pieces)),
            operands_spell(operands@, interner@, pieces),
            operands_from(tokens, input@, start) == Ok::<Parsed<Seq<Piece>>, Error>(
                Parsed { value: pieces, next: parser.position as nat },
            ),
        decreases tokens.len() - parser.position,
    {
        let ghost names = interner@;
        let ghost before = operands@;
        let ghost at = parser.position as nat;
        match parse_operand(parser, &mut operands, input, interner) {
            Err(e) => {
                return Err(e);
            },
            Ok(false) => {
                assert(pieces + Seq::<Piece>::empty() =~= pieces);
                break;
            },
            Ok(true) => {
                proof {
                    let piece = operand_at(tokens, input@, at)->Ok_0.value->0;
                    lemma_operands_spell_extends(before, names, interner@, pieces);
                    lemma_intern_all_concat(
                        old(interner)@,
                        names_of_pieces(pieces),
                        names_of_piece(piece),
                    );
                    assert(pieces.push(piece).drop_last() =~= pieces);
                    let rest = operands_from(tokens, input@, parser.position as nat);
                    if rest is Ok {
                        assert(pieces + (seq![piece] + rest->Ok_0.value) =~= pieces.push(piece)
                            + rest->Ok_0.value);
                    }
                    pieces = pieces.push(piece);
                    assert forall|i: int| 0 <= i < operands@.len() implies piece_of(
                        #[trigger] operands@[i],
                        interner@,
                    ) == Some(pieces[i]) by {
                        if i < before.len() {
                            assert(operands@[i] == operands@.drop_last()[i]);
                        }
                    }
                }
            },
        }
    }
    let ghost names = interner@;
    let symbol = get_symbol(opcode.as_str(input), interner);
    proof {
        lemma_operands_spell_extends(operands@, names, interner@, pieces);
        assert(names_of_pieces(pieces).push(opcode.text(input@)).drop_last() =~= names_of_pieces(
            pieces,
        ));
    }
    Ok(Instruction::new(symbol, operands))
}

/// Whether the text ends in a colon.
fn ends_in_colon(text: &str) -> (r: bool)
    ensures
        r == is_label_text(text@),
{
    let len = text.unicode_len();
    len > 0 && text.get_char(len - 1) == ':'
}

/// Parses a program. Inline assembly ends at the closer of the group that
/// holds it; a program of its own ends with the tokens. The names of the
/// program are interned; the instructions hold their symbols.
pub fn parse(tokens: &[Token], input: &str, inlinep: bool, interner: &mut StringInterner) -> (r:
    Result<Vec<Instruction>, Error>)
    requires
        all_fit(tokens@, input@.len()),
    ensures
        extends(final(interner)@, old(interner)@),
        distinct(old(interner)@) ==> distinct(final(interner)@),
        match program(tokens@, input@, inlinep) {
            Err(e) => r == Err::<Vec<Instruction>, Error>(e),
            Ok(items) => {
                &&& r is Ok
                &&& instructions_spell(r->Ok_0@, final(interner)@, items)
                &&& final(interner)@ == intern_all(old(interner)@, names_of_items(items))
            },
        },
{
    let kept = without_comments(tokens);
    let mut parser = Parser::new(kept.as_slice());
    let mut instructions: Vec<Instruction> = Vec::new();
    let ghost items: Seq<Item> = Seq::empty();
    let ghost all = significant(tokens@);
    loop
        invariant
            parser.tokens@ == all,
            all == significant(tokens@),
            parser.position <= all.len(),
            all_fit(all, input@.len()),
            extends(interner@, old(interner)@),
            distinct(old(interner)@) ==> distinct(interner@),
            interner@ == intern_all(old(interner)@, names_of_items(items)),
            instructions_spell(instructions@, interner@, items),
            items_from(all, input@, 0, inlinep) == chain(
                items,
                items_from(all, input@, parser.position as nat, inlinep),
            ),
        decreases all.len() - parser.position,
    {
        let ghost names = interner@;
        let ghost before = instructions@;
        let ghost at = parser.position as nat;
        let t = match parser.next() {
            Err(_) => {
                if inlinep {
                    return Err(Error::EndOfInput);
                } else {
                    assert(items + Seq::<Item>::empty() =~= items);
                    return Ok(instructions);
                }
            },
            Ok(t) => t,
        };
        let instruction = if t.closerp() {
            if inlinep {
                assert(items + Seq::<Item>::empty() =~= items);
                return Ok(instructions);
            } else {
                return Err(Error::Closer);
            }
        } else if t.is_symbol() {
            if !ends_in_colon(t.as_str(input)) {
                return Err(Error::Opener);
            }
            Instruction::Label(get_symbol(t.as_str(input), interner))
        } else if t.openerp() {
            match parse_operation(&mut parser, input, interner) {
                Err(e) => {
                    return Err(e);
                },
                Ok(instruction) => instruction,
            }
        } else {
            return Err(Error::Opener);
        };
        proof {
            let item = if t is Symbol {
                Item::Label(t.text(input@))
            } else {
                operation_at(all, input@, at + 1)->Ok_0.value
            };
            lemma_instructions_spell_extends(before, names, interner@, items);
            lemma_intern_all_concat(old(interner)@, names_of_items(items), names_of_item(item));
            assert(items.push(item).drop_last() =~= items);

            let rest = items_from(all, input@, parser.position as nat, inlinep);
            if rest is Ok {
                assert(items + (seq![item] + rest->Ok_0) =~= items.push(item) + rest->Ok_0);
            }
            items = items.push(item);
        }
        instructions.push(instruction);
    }
}

} // verus!
